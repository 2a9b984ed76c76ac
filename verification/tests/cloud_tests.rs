use novelgraph::analysis::ChapterRange;
use novelgraph::analysis_step::{
    analysis_step_transition, start_analysis_step, unreachable_reason_text, StepAction, StepEvent,
    StepNotice, StepStage, StepState,
};
use novelgraph::characters::{CharacterAlias, CharacterIdentity};
use novelgraph::alias_merges::merge_probable_alias_character_records;
use novelgraph::cloud_characters::{
    build_character_fields, build_character_records, cloud_character_record, CloudCharacter, CloudCharacterField,
};
use novelgraph::cloud_pass::{cloud_answer_header_check, cloud_pass_for_answer, cloud_pass_outcome};
use novelgraph::cloud_relationships::{build_relationship_records, CloudRelationship};
use novelgraph::cloud_records::{
    build_surface_map, field_is_mvp_appearance, field_semantic_class_is_persistable,
    find_quote_offsets, map_quotes_to_evidence, merge_record_fields, merge_record_mentions,
    push_character_record_surface_key, resolve_surface_to_identity, scan_identity_mentions,
    update_preferred_payload_relationship_label,
};
use novelgraph::domain::{
    Chapter, Novel, NovelImportInput, NovelMetadataUpdateInput, StoryCharacterMention,
};
use novelgraph::novels::{
    fill_source_language_if_auto, finish_metadata_suggestion, join_chapter_text,
    merge_novel_metadata_suggestion, normalize_novel_metadata_suggestion, novel_metadata_input,
    optional_metadata_text, prepare_metadata_suggestion_input, source_language_is_auto,
    NovelMetadataSuggestion,
};
use novelgraph::records::{
    StoryExtractionFieldPayload, StoryExtractionFieldValuePayload, StoryExtractionRecordPayload,
};
use novelgraph::resolution::filter_substring_only_identities;

fn chapter(num: i64, content: &str) -> Chapter {
    Chapter {
        id: format!("chapter-{num}"),
        novel_id: "novel".to_string(),
        chapter_num: num,
        title: format!("Chapter {num}"),
        content: content.to_string(),
        created_at: String::new(),
        updated_at: String::new(),
    }
}

fn alias(text: &str) -> CharacterAlias {
    CharacterAlias {
        text: text.to_string(),
        alias_type: "alias".to_string(),
        alias_label: String::new(),
        is_primary: false,
        evidence: Vec::new(),
    }
}

fn identity(name: &str, aliases: &[&str]) -> CharacterIdentity {
    CharacterIdentity {
        name: name.to_string(),
        aliases: aliases.iter().map(|a| alias(a)).collect(),
    }
}

fn mention(start: i64, end: i64, text: &str) -> StoryCharacterMention {
    StoryCharacterMention {
        text: text.to_string(),
        start_char: start,
        end_char: end,
        mention_type: Some("name".to_string()),
    }
}

fn value(text: &str) -> StoryExtractionFieldValuePayload {
    StoryExtractionFieldValuePayload {
        value: text.to_string(),
        related_character: None,
        relationship_type: None,
        relationship_label: None,
        relationship_direction: None,
        evidence: Vec::new(),
    }
}

fn field(key: &str, values: Vec<StoryExtractionFieldValuePayload>) -> StoryExtractionFieldPayload {
    StoryExtractionFieldPayload {
        field_key: key.to_string(),
        field_label: key.to_string(),
        values,
    }
}

fn record(mentions: Vec<StoryCharacterMention>, fields: Vec<StoryExtractionFieldPayload>) -> StoryExtractionRecordPayload {
    StoryExtractionRecordPayload {
        group_key: "character".to_string(),
        group_label: "Nhân Vật".to_string(),
        entity_key: None,
        display_name: "Hàn Lập".to_string(),
        mentions,
        fields,
    }
}

fn novel() -> Novel {
    Novel {
        id: "novel".to_string(),
        project_id: "project".to_string(),
        title: "Phàm Nhân".to_string(),
        author: Some("Vong Ngữ".to_string()),
        source_language: Some("auto".to_string()),
        genre: None,
        description: Some("old".to_string()),
        created_at: String::new(),
        updated_at: String::new(),
    }
}

fn suggestion(title: Option<&str>, language: Option<&str>) -> NovelMetadataSuggestion {
    NovelMetadataSuggestion {
        title: title.map(str::to_string),
        author: None,
        source_language: language.map(str::to_string),
        genre: Some("  tiên hiệp ".to_string()),
        description: Some("   ".to_string()),
    }
}

// ---------------------------------------------------------------------------
// Quotes and evidence.
// ---------------------------------------------------------------------------

#[test]
fn quote_offsets_count_chars() {
    assert_eq!(find_quote_offsets("Hàn Lập cười.", "Lập"), Some((4, 7)));
    assert_eq!(find_quote_offsets("abc abc", "abc"), Some((0, 3)));
    assert_eq!(find_quote_offsets("abc", "xyz"), None);
}

#[test]
fn quotes_map_once_to_found_spans() {
    let ch = chapter(3, "Hàn Lập cười. Nam Cung Uyển nhìn.");
    let quotes = vec![
        " Hàn Lập cười ".to_string(),
        "hàn lập cười".to_string(),
        "   ".to_string(),
        "not here".to_string(),
        "Nam Cung".to_string(),
    ];
    let spans = map_quotes_to_evidence(&ch, &quotes, "seen");
    assert_eq!(spans.len(), 2);
    assert_eq!(spans[0].chapter_num, 3);
    assert_eq!(spans[0].start_char, Some(0));
    assert_eq!(spans[0].end_char, Some(12));
    assert_eq!(spans[0].quote.as_deref(), Some("Hàn Lập cười"));
    assert_eq!(spans[0].reason.as_deref(), Some("seen"));
    assert_eq!(spans[1].start_char, Some(14));
    assert_eq!(spans[1].end_char, Some(22));
}

#[test]
fn appearance_fields_by_class_or_key() {
    assert!(field_semantic_class_is_persistable("clothing"));
    assert!(field_semantic_class_is_persistable("age_or_build"));
    assert!(!field_semantic_class_is_persistable("personality"));
    assert!(field_is_mvp_appearance("appearance", ""));
    assert!(field_is_mvp_appearance("physical_appearance", ""));
    assert!(!field_is_mvp_appearance("appearance", "personality"));
    assert!(field_is_mvp_appearance("notes", "clothing"));
}

// ---------------------------------------------------------------------------
// Surfaces, mentions and labels.
// ---------------------------------------------------------------------------

#[test]
fn surface_keys_are_pushed_once() {
    let mut keys = Vec::new();
    let mut seen = Vec::new();
    push_character_record_surface_key(&mut keys, &mut seen, "Hàn Lập");
    push_character_record_surface_key(&mut keys, &mut seen, "han lap");
    push_character_record_surface_key(&mut keys, &mut seen, "  ");
    push_character_record_surface_key(&mut keys, &mut seen, "Lệ Phi Vũ");
    assert_eq!(keys, vec!["han_lap".to_string(), "le_phi_vu".to_string()]);
    assert_eq!(seen.len(), 2);
}

#[test]
fn surface_map_marks_shared_surfaces_ambiguous() {
    let identities = vec![
        identity("Hàn Lập", &["Hàn huynh", "Lập"]),
        identity("Lệ Phi Vũ", &["Hàn huynh"]),
    ];
    let map = build_surface_map(&identities);
    assert_eq!(resolve_surface_to_identity(&map, "hàn lập"), Some(0));
    assert_eq!(resolve_surface_to_identity(&map, "Lệ Phi Vũ"), Some(1));
    assert_eq!(resolve_surface_to_identity(&map, "Hàn huynh"), None);
    assert_eq!(resolve_surface_to_identity(&map, "Lập"), Some(0));
    assert_eq!(resolve_surface_to_identity(&map, "  "), None);
    assert_eq!(resolve_surface_to_identity(&map, "Mặc Đại Phu"), None);
}

#[test]
fn identity_mentions_do_not_overlap() {
    let ch = chapter(1, "Hàn Lập nói. Lập gật đầu.");
    let mentions = scan_identity_mentions(&ch, &identity("Hàn Lập", &["Lập"]));
    assert_eq!(mentions.len(), 2);
    assert_eq!((mentions[0].start_char, mentions[0].end_char), (0, 7));
    assert_eq!(mentions[0].text, "Hàn Lập");
    assert_eq!(mentions[0].mention_type.as_deref(), Some("name"));
    assert_eq!((mentions[1].start_char, mentions[1].end_char), (13, 16));
    assert_eq!(mentions[1].mention_type.as_deref(), Some("alias"));
}

#[test]
fn relationship_label_prefers_more_specific() {
    let mut target = value("uncle");
    update_preferred_payload_relationship_label(&mut target, "paternal uncle");
    assert_eq!(target.value, "paternal uncle");
    assert_eq!(target.relationship_label.as_deref(), Some("paternal uncle"));
    update_preferred_payload_relationship_label(&mut target, "uncle");
    assert_eq!(target.value, "paternal uncle");
    update_preferred_payload_relationship_label(&mut target, "   ");
    assert_eq!(target.value, "paternal uncle");
}

#[test]
fn record_mentions_sort_and_dedupe() {
    let mut target = record(vec![mention(10, 13, "Lập"), mention(0, 7, "Hàn Lập")], Vec::new());
    merge_record_mentions(
        &mut target,
        vec![mention(0, 7, "hàn lập"), mention(0, 3, "Hàn"), mention(0, 7, "Hàn Lập!")],
    );
    let spans: Vec<(i64, i64)> = target.mentions.iter().map(|m| (m.start_char, m.end_char)).collect();
    assert_eq!(spans, vec![(0, 7), (0, 3), (10, 13)]);
    assert_eq!(target.mentions[0].text, "Hàn Lập");
}

#[test]
fn record_fields_merge_by_key() {
    let mut target = record(Vec::new(), vec![field("appearance", vec![value("tall")])]);
    merge_record_fields(
        &mut target,
        vec![
            field("Appearance", vec![value("thin")]),
            field("personality", vec![value("calm")]),
        ],
    );
    assert_eq!(target.fields.len(), 2);
    let first: Vec<&str> = target.fields[0].values.iter().map(|v| v.value.as_str()).collect();
    assert_eq!(first, vec!["tall", "thin"]);
    assert_eq!(target.fields[1].field_key, "personality");
}

// ---------------------------------------------------------------------------
// Identities seen only inside a longer name.
// ---------------------------------------------------------------------------

#[test]
fn substring_only_identity_is_dropped() {
    let mut identities = vec![identity("Hàn Lập", &[]), identity("Lập", &[])];
    filter_substring_only_identities(&mut identities, "Hàn Lập đi. Hàn Lập về.");
    let names: Vec<&str> = identities.iter().map(|i| i.name.as_str()).collect();
    assert_eq!(names, vec!["Hàn Lập"]);
}

#[test]
fn identity_seen_alone_is_kept() {
    let mut identities = vec![identity("Hàn Lập", &[]), identity("Lập", &[])];
    filter_substring_only_identities(&mut identities, "Hàn Lập đi. Lập về.");
    assert_eq!(identities.len(), 2);

    let mut single = vec![identity("Lập", &[])];
    filter_substring_only_identities(&mut single, "Hàn Lập đi.");
    assert_eq!(single.len(), 1);
}

// ---------------------------------------------------------------------------
// Novel metadata.
// ---------------------------------------------------------------------------

#[test]
fn metadata_text_is_trimmed_or_dropped() {
    assert_eq!(optional_metadata_text(Some("  a b ".to_string())), Some("a b".to_string()));
    assert_eq!(optional_metadata_text(Some("   ".to_string())), None);
    assert_eq!(optional_metadata_text(None), None);
}

#[test]
fn suggestion_normalizes_and_drops_auto() {
    let s = normalize_novel_metadata_suggestion(suggestion(Some(" Title "), Some(" auto ")));
    assert_eq!(s.title.as_deref(), Some("Title"));
    assert_eq!(s.source_language, None);
    assert_eq!(s.genre.as_deref(), Some("tiên hiệp"));
    assert_eq!(s.description, None);
    let s = normalize_novel_metadata_suggestion(suggestion(None, Some("vi")));
    assert_eq!(s.source_language.as_deref(), Some("vi"));
}

#[test]
fn suggestion_merges_over_novel() {
    let update = merge_novel_metadata_suggestion(&novel(), normalize_novel_metadata_suggestion(suggestion(None, Some("zh"))));
    assert_eq!(update.title.as_deref(), Some("Phàm Nhân"));
    assert_eq!(update.author.as_deref(), Some("Vong Ngữ"));
    assert_eq!(update.source_language.as_deref(), Some("zh"));
    assert_eq!(update.genre.as_deref(), Some("tiên hiệp"));
    assert_eq!(update.description.as_deref(), Some("old"));
}

#[test]
fn auto_language_is_detected_from_chapters() {
    assert!(source_language_is_auto(&None));
    assert!(source_language_is_auto(&Some(" auto ".to_string())));
    assert!(source_language_is_auto(&Some("  ".to_string())));
    assert!(!source_language_is_auto(&Some("en".to_string())));

    let chapters = vec![
        chapter(1, "Hàn Lập đứng dậy, nhìn về phía núi."),
        chapter(2, "Trời đã tối, gió thổi lạnh."),
    ];
    assert_eq!(
        join_chapter_text(&chapters),
        "Hàn Lập đứng dậy, nhìn về phía núi.\n\nTrời đã tối, gió thổi lạnh."
    );
    let mut input = NovelMetadataUpdateInput {
        title: Some("T".to_string()),
        author: None,
        source_language: Some("auto".to_string()),
        genre: None,
        description: None,
    };
    fill_source_language_if_auto(&mut input, &chapters);
    assert_eq!(input.source_language.as_deref(), Some("vi"));
    assert_eq!(input.title.as_deref(), Some("T"));

    let mut kept = input.clone();
    kept.source_language = Some("en".to_string());
    fill_source_language_if_auto(&mut kept, &chapters);
    assert_eq!(kept.source_language.as_deref(), Some("en"));
}

#[test]
fn metadata_input_needs_text() {
    let err = novel_metadata_input(&novel(), &vec![chapter(1, "  "), chapter(2, "")]).unwrap_err();
    assert_eq!(err.status, 400);
    assert_eq!(err.message, "novel text is required");

    let input = novel_metadata_input(&novel(), &vec![chapter(1, "a"), chapter(2, "b")]).unwrap();
    assert_eq!(input.text, "a\n\nb");
    assert_eq!(input.title, "Phàm Nhân");
    assert_eq!(input.source_language.as_deref(), Some("auto"));
}

#[test]
fn suggestion_input_guesses_language() {
    let input = NovelImportInput {
        title: "T".to_string(),
        author: None,
        source_language: None,
        genre: None,
        description: None,
        text: "The quick brown fox jumps over the lazy dog again and again.".to_string(),
    };
    let prepared = prepare_metadata_suggestion_input(input.clone());
    assert_eq!(prepared.source_language.as_deref(), Some("en"));
    let mut fixed = input;
    fixed.source_language = Some("ja".to_string());
    assert_eq!(prepare_metadata_suggestion_input(fixed).source_language.as_deref(), Some("ja"));
}

#[test]
fn first_answer_is_kept_with_input_language() {
    let kept = finish_metadata_suggestion(
        vec![suggestion(Some(" A "), Some("")), suggestion(Some("B"), Some("zh"))],
        Some("vi".to_string()),
    );
    assert_eq!(kept.title.as_deref(), Some("A"));
    assert_eq!(kept.source_language.as_deref(), Some("vi"));
    let empty = finish_metadata_suggestion(Vec::new(), Some("auto".to_string()));
    assert_eq!(empty.title, None);
    assert_eq!(empty.source_language, None);
}

// ---------------------------------------------------------------------------
// The preflight of an analysis step.
// ---------------------------------------------------------------------------

fn step(state: StepState, event: StepEvent) -> (StepState, StepAction, Option<StepNotice>) {
    analysis_step_transition(state, event)
}

#[test]
fn forced_step_resets_then_runs_to_a_chapter() {
    let s = start_analysis_step();
    assert_eq!(s.stage, StepStage::Start);
    let (s, a, n) = step(s, StepEvent::Requested { force: true, range: Some(ChapterRange { from: 2, to: 5 }) });
    assert_eq!(s.stage, StepStage::Resetting);
    assert!(matches!(a, StepAction::ResetRange { from: 2, to: 5 }));
    assert_eq!(n, None);
    let (s, a, n) = step(s, StepEvent::ResetDone);
    assert!(matches!(a, StepAction::LoadJob));
    assert_eq!(n, Some(StepNotice::Reset));
    let (s, a, _) = step(s, StepEvent::JobLoaded { found: true, status: "queued".to_string() });
    assert!(matches!(a, StepAction::MarkJobRunning));
    let (s, a, n) = step(s, StepEvent::JobMarkedRunning { novel_id: Some("n1".to_string()) });
    assert!(matches!(a, StepAction::LoadNovel { ref novel_id } if novel_id == "n1"));
    assert_eq!(n, Some(StepNotice::Running));
    let (s, a, _) = step(s, StepEvent::NovelLoaded { found: true });
    assert!(matches!(a, StepAction::LoadChaptersAndRuns));
    let (s, a, _) = step(s, StepEvent::ChaptersLoaded { has_next_chapter: true });
    assert!(matches!(a, StepAction::CheckHealth));
    let (s, a, _) = step(s, StepEvent::HealthChecked { reachable: true, status_text: None });
    assert!(matches!(a, StepAction::StartChapter));
    let (s, a, n) = step(s, StepEvent::ChapterStarted);
    assert_eq!(s.stage, StepStage::Done);
    assert!(matches!(a, StepAction::Ready));
    assert_eq!(n.map(|n| n.event_type()), Some("analysis_chapter_started"));
}

#[test]
fn step_stops_on_missing_or_finished_work() {
    let (s, a, _) = step(start_analysis_step(), StepEvent::Requested { force: false, range: None });
    assert!(matches!(a, StepAction::LoadJob));
    let (_, a, _) = step(s.clone(), StepEvent::JobLoaded { found: false, status: String::new() });
    match a {
        StepAction::Fail(e) => {
            assert_eq!(e.status, 404);
            assert_eq!(e.message, "analysis_job was not found");
        }
        _ => panic!("expected a failure"),
    }
    let (_, a, _) = step(s.clone(), StepEvent::JobLoaded { found: true, status: "completed".to_string() });
    assert!(matches!(a, StepAction::ReturnSnapshot { reason: None }));
    let running = StepState { stage: StepStage::MarkingRunning, pause_reason: None };
    let (_, a, _) = step(running, StepEvent::JobMarkedRunning { novel_id: None });
    match a {
        StepAction::Fail(e) => {
            assert_eq!(e.status, 400);
            assert_eq!(e.message, "analysis job is not attached to a novel");
        }
        _ => panic!("expected a failure"),
    }
    let chapters = StepState { stage: StepStage::LoadingChapters, pause_reason: None };
    let (s, a, _) = step(chapters, StepEvent::ChaptersLoaded { has_next_chapter: false });
    assert!(matches!(a, StepAction::FinishRangeOrJob));
    let (_, a, n) = step(s, StepEvent::RangeFinished);
    assert!(matches!(a, StepAction::ReturnSnapshot { reason: None }));
    assert_eq!(n, Some(StepNotice::Finished));
}

#[test]
fn unreachable_server_pauses_the_job() {
    assert_eq!(unreachable_reason_text(None), "Local llama.cpp không reachable: request failed");
    let checking = StepState { stage: StepStage::CheckingHealth, pause_reason: None };
    let (s, a, _) = step(checking, StepEvent::HealthChecked { reachable: false, status_text: Some("503".to_string()) });
    assert_eq!(s.stage, StepStage::Pausing);
    match &a {
        StepAction::PauseJob { reason, code } => {
            assert_eq!(reason, "Local llama.cpp không reachable: 503");
            assert_eq!(*code, "local_llm_unreachable");
        }
        _ => panic!("expected a pause"),
    }
    let (_, a, n) = step(s, StepEvent::Paused);
    match a {
        StepAction::ReturnSnapshot { reason } => {
            assert_eq!(reason.as_deref(), Some("Local llama.cpp không reachable: 503"));
        }
        _ => panic!("expected a snapshot"),
    }
    assert_eq!(n.map(|n| n.detail()), Some("local LLM unreachable"));
}

// ---------------------------------------------------------------------------
// Relationship records of a cloud extraction.
// ---------------------------------------------------------------------------

fn character(name: &str, aliases: &[&str]) -> StoryExtractionRecordPayload {
    let mut fields = Vec::new();
    if !aliases.is_empty() {
        fields.push(field("other_alias", aliases.iter().map(|a| value(a)).collect()));
    }
    StoryExtractionRecordPayload {
        group_key: "character".to_string(),
        group_label: "Nhân Vật".to_string(),
        entity_key: None,
        display_name: name.to_string(),
        mentions: Vec::new(),
        fields,
    }
}

fn cloud_relationship(source: &str, target: &str, scope: &str, s2t: &str, t2s: &str, quote: &str) -> CloudRelationship {
    CloudRelationship {
        source_name: source.to_string(),
        target_name: target.to_string(),
        relationship_scope: scope.to_string(),
        relationship_type: "Kinship Uncle".to_string(),
        source_to_target_label: s2t.to_string(),
        target_to_source_label: t2s.to_string(),
        evidence_quotes: vec![quote.to_string()],
    }
}

#[test]
fn cloud_relationships_become_one_record_per_pair() {
    let ch = chapter(4, "Hàn Thúc là tam thúc của Hàn Lập. Lập ca cười.");
    let characters = vec![character("Hàn Lập", &["Lập ca"]), character("Hàn Thúc", &[])];
    let quote = "Hàn Thúc là tam thúc của Hàn Lập";
    let relationships = vec![
        cloud_relationship("Lập ca", "Hàn Thúc", "Kinship", " cháu ", "tam thúc", quote),
        cloud_relationship("Hàn Thúc", "Hàn Lập", "kinship", "tam thúc", "cháu", quote),
        cloud_relationship("Hàn Lập", "Hàn Thúc", "event", "a", "b", quote),
        cloud_relationship("Nobody", "Hàn Thúc", "kinship", "a", "b", quote),
        cloud_relationship("Hàn Lập", "Hàn Thúc", "kinship", "a", "b", "not in the chapter"),
        cloud_relationship("Hàn Lập", "Lập ca", "kinship", "a", "b", quote),
    ];
    let mut suspects = Vec::new();
    let records = build_relationship_records(&ch, &characters, &relationships, &mut suspects);

    assert_eq!(records.len(), 1);
    let record = &records[0];
    assert_eq!(record.group_key, "relationship");
    assert_eq!(record.group_label, "Quan Hệ");
    assert_eq!(record.entity_key.as_deref(), Some("relationship|han_lap|han_thuc"));
    assert_eq!(record.display_name, "Hàn Lập ↔ Hàn Thúc");
    assert_eq!(record.fields.len(), 1);
    assert_eq!(record.fields[0].field_key, "relationship");
    let values = &record.fields[0].values;
    assert_eq!(values.len(), 2);
    assert_eq!(values[0].value, "cháu");
    assert_eq!(values[0].related_character.as_deref(), Some("Hàn Thúc"));
    assert_eq!(values[0].relationship_type.as_deref(), Some("kinship_uncle"));
    assert_eq!(values[0].relationship_direction.as_deref(), Some("self_to_related"));
    assert_eq!(values[1].value, "tam thúc");
    assert_eq!(values[1].related_character.as_deref(), Some("Hàn Lập"));
    assert_eq!(values[1].relationship_direction.as_deref(), Some("related_to_self"));
    assert_eq!(values[0].evidence.len(), 1);
    assert_eq!(values[0].evidence[0].start_char, Some(0));
    assert_eq!(values[0].evidence[0].end_char, Some(32));
    assert_eq!(values[0].evidence[0].reason.as_deref(), Some("cloud_relationship"));

    let reasons: Vec<&str> = suspects.iter().map(|s| s.reason.as_str()).collect();
    assert_eq!(
        reasons,
        vec![
            "relationship_scope_not_persistable",
            "relationship_source_not_resolved_unique",
            "relationship_evidence_not_found_in_chapter",
        ]
    );
    assert_eq!(suspects[0].details[2], ("relationship_scope".to_string(), "event".to_string()));
    assert_eq!(suspects[1].details, vec![("source_name".to_string(), "Nobody".to_string())]);
    assert_eq!(suspects[2].details[2], ("relationship_type".to_string(), "kinship_uncle".to_string()));
}

#[test]
fn weak_alias_records_merge_into_stronger_ones() {
    let mut weak = character("Anh ngốc", &[]);
    weak.mentions = vec![mention(100, 108, "Anh ngốc")];
    let mut strong = character("Hàn Lập", &["Anh ngố"]);
    strong.mentions = vec![mention(0, 7, "Hàn Lập"), mention(20, 27, "Hàn Lập"), mention(40, 47, "Hàn Lập")];
    let mut other = character("Nam Cung Uyển", &[]);
    other.mentions = vec![mention(60, 73, "Nam Cung Uyển")];
    let mut records = vec![weak, strong, other];
    let mut suspects = Vec::new();
    merge_probable_alias_character_records(&mut records, &mut suspects);

    let names: Vec<&str> = records.iter().map(|r| r.display_name.as_str()).collect();
    assert_eq!(names, vec!["Hàn Lập", "Nam Cung Uyển"]);
    let starts: Vec<i64> = records[0].mentions.iter().map(|m| m.start_char).collect();
    assert_eq!(starts, vec![0, 20, 40, 100]);
    assert_eq!(suspects.len(), 1);
    assert_eq!(suspects[0].reason, "probable_alias_character_record_merged");
    let details: Vec<(&str, &str)> = suspects[0].details.iter().map(|(k, v)| (k.as_str(), v.as_str())).collect();
    assert_eq!(
        details,
        vec![
            ("source_display_name", "Anh ngốc"),
            ("target_display_name", "Hàn Lập"),
            ("match_kind", "near_alias_surface"),
        ]
    );
}

// ---------------------------------------------------------------------------
// Character records of a cloud extraction.
// ---------------------------------------------------------------------------

fn cloud_field(key: &str, class: &str, value: &str, quotes: &[&str]) -> CloudCharacterField {
    CloudCharacterField {
        field_key: key.to_string(),
        field_label: "label".to_string(),
        value: value.to_string(),
        semantic_class: class.to_string(),
        evidence_quotes: quotes.iter().map(|q| q.to_string()).collect(),
    }
}

fn cloud_character(name: &str, aliases: &[&str], nature: &str, fields: Vec<CloudCharacterField>, quotes: &[&str]) -> CloudCharacter {
    CloudCharacter {
        display_name: name.to_string(),
        aliases: aliases.iter().map(|a| a.to_string()).collect(),
        entity_nature: nature.to_string(),
        fields,
        evidence_quotes: quotes.iter().map(|q| q.to_string()).collect(),
    }
}

const CHARACTER_CHAPTER: &str = "Hàn Lập mặc áo xanh. Lập ca cười. Anh ngốc chạy.";

#[test]
fn character_fields_keep_grounded_appearance() {
    let ch = chapter(2, CHARACTER_CHAPTER);
    let candidate = cloud_character(
        "Hàn Lập",
        &[],
        "named_character",
        vec![
            cloud_field("appearance", "clothing", " mặc áo xanh ", &["Hàn Lập mặc áo xanh"]),
            cloud_field("personality", "personality", "calm", &[]),
            cloud_field("appearance", "", "tall", &["missing quote"]),
            cloud_field("appearance", "clothing", "  ", &["Hàn Lập"]),
        ],
        &[],
    );
    let mut suspects = Vec::new();
    let fields = build_character_fields(&ch, &candidate, &mut suspects);
    assert_eq!(fields.len(), 1);
    assert_eq!(fields[0].field_key, "appearance");
    assert_eq!(fields[0].field_label, "Ngoại hình");
    assert_eq!(fields[0].values.len(), 1);
    assert_eq!(fields[0].values[0].value, "mặc áo xanh");
    assert_eq!(fields[0].values[0].evidence[0].reason.as_deref(), Some("cloud_field"));
    assert_eq!(fields[0].values[0].evidence[0].end_char, Some(19));
    let reasons: Vec<&str> = suspects.iter().map(|s| s.reason.as_str()).collect();
    assert_eq!(reasons, vec!["field_semantic_class_not_persistable", "field_evidence_not_found_in_chapter"]);
    assert_eq!(suspects[0].details[1], ("field_key".to_string(), "personality".to_string()));

    let mut none = Vec::new();
    let bare = cloud_character("Hàn Lập", &[], "named_character", vec![], &[]);
    assert!(build_character_fields(&ch, &bare, &mut none).is_empty());
    assert!(none.is_empty());
}

#[test]
fn cloud_character_record_has_aliases_and_mentions() {
    let ch = chapter(2, CHARACTER_CHAPTER);
    let mut suspects = Vec::new();
    let candidate = cloud_character(" Hàn Lập ", &["Lập ca", "  "], "named_character", vec![], &[]);
    let record = cloud_character_record(&ch, &candidate, &mut suspects).unwrap();
    assert_eq!(record.display_name, "Hàn Lập");
    assert_eq!(record.entity_key.as_deref(), Some("han_lap"));
    assert_eq!(record.group_key, "character");
    let spans: Vec<(i64, i64)> = record.mentions.iter().map(|m| (m.start_char, m.end_char)).collect();
    assert_eq!(spans, vec![(0, 7), (21, 27)]);
    assert_eq!(record.fields.len(), 1);
    assert_eq!(record.fields[0].field_key, "other_alias");
    assert_eq!(record.fields[0].values[0].value, "Lập ca");
    assert!(suspects.is_empty());

    let passer = cloud_character("Người qua đường", &[], "Temporary Reference", vec![], &[]);
    assert!(cloud_character_record(&ch, &passer, &mut suspects).is_none());
    assert_eq!(suspects[0].reason, "character_entity_nature_not_persistable");
    assert_eq!(suspects[0].details[1], ("entity_nature".to_string(), "temporary_reference".to_string()));
}

#[test]
fn character_records_merge_by_key_and_report_suspects() {
    let ch = chapter(2, CHARACTER_CHAPTER);
    let characters = vec![
        cloud_character(
            "Hàn Lập",
            &["Lập ca"],
            "named_character",
            vec![
                cloud_field("appearance", "clothing", "mặc áo xanh", &["Hàn Lập mặc áo xanh"]),
                cloud_field("personality", "personality", "calm", &[]),
            ],
            &[],
        ),
        cloud_character("Người qua đường", &[], "temporary_reference", vec![], &[]),
        cloud_character("Anh ngốc", &[], "named_character", vec![], &["Anh ngốc chạy"]),
        cloud_character(
            "Hàn Lập",
            &[],
            "named_character",
            vec![cloud_field("appearance", "physical_appearance", "tóc đen", &["Hàn Lập mặc"])],
            &[],
        ),
        cloud_character("Ghost", &[], "named_character", vec![], &["Ghost said"]),
    ];
    let mut suspects = Vec::new();
    let records = build_character_records(&ch, &characters, &mut suspects);
    let names: Vec<&str> = records.iter().map(|r| r.display_name.as_str()).collect();
    assert_eq!(names, vec!["Hàn Lập", "Anh ngốc", "Ghost"]);
    let han = &records[0];
    assert_eq!(han.mentions.len(), 2);
    assert_eq!(han.fields.len(), 2);
    assert_eq!(han.fields[0].field_key, "appearance");
    let looks: Vec<&str> = han.fields[0].values.iter().map(|v| v.value.as_str()).collect();
    assert_eq!(looks, vec!["mặc áo xanh", "tóc đen"]);
    assert_eq!(han.fields[1].field_key, "other_alias");
    assert!(records[2].mentions.is_empty());

    let reasons: Vec<&str> = suspects.iter().map(|s| s.reason.as_str()).collect();
    assert_eq!(
        reasons,
        vec![
            "field_semantic_class_not_persistable",
            "character_entity_nature_not_persistable",
            "character_mentions_not_found_from_surfaces",
        ]
    );
    assert_eq!(suspects[2].evidence_quotes, vec!["Ghost said".to_string()]);
}

#[test]
fn cloud_pass_builds_a_checked_document() {
    let ch = chapter(4, "Hàn Thúc là tam thúc của Hàn Lập. Lập ca cười.");
    let characters = vec![
        cloud_character("Hàn Lập", &["Lập ca"], "named_character", vec![], &[]),
        cloud_character("Hàn Thúc", &[], "named_character", vec![], &[]),
    ];
    let relationships = vec![cloud_relationship(
        "Lập ca",
        "Hàn Thúc",
        "kinship",
        "cháu",
        "tam thúc",
        "Hàn Thúc là tam thúc của Hàn Lập",
    )];
    let mut suspects = Vec::new();
    let outcome = cloud_pass_outcome(&ch, &characters, &relationships, &mut suspects);
    assert!(outcome.validation.is_ok());
    assert_eq!(outcome.document.schema_version, "story_character_extraction.v1");
    assert_eq!(outcome.document.chapter_num, 4);
    let names: Vec<&str> = outcome.document.records.iter().map(|r| r.display_name.as_str()).collect();
    assert_eq!(names, vec!["Hàn Lập", "Hàn Thúc", "Hàn Lập ↔ Hàn Thúc"]);
    assert!(suspects.is_empty());
}

fn record_summary(records: &[StoryExtractionRecordPayload]) -> Vec<(Option<String>, String, Vec<(String, Option<String>, Option<String>, Option<String>, Vec<(Option<i64>, Option<i64>)>)>)> {
    records
        .iter()
        .map(|r| {
            let values = r.fields[0]
                .values
                .iter()
                .map(|v| {
                    (
                        v.value.clone(),
                        v.related_character.clone(),
                        v.relationship_type.clone(),
                        v.relationship_direction.clone(),
                        v.evidence.iter().map(|e| (e.start_char, e.end_char)).collect(),
                    )
                })
                .collect();
            (r.entity_key.clone(), r.display_name.clone(), values)
        })
        .collect()
}

#[test]
fn relationship_records_are_the_same_either_way_round() {
    let ch = chapter(4, "Hàn Thúc là tam thúc của Hàn Lập. Lập ca cười. Mặc Đại Phu dạy Hàn Lập.");
    let characters = vec![
        character("Hàn Lập", &["Lập ca"]),
        character("Hàn Thúc", &[]),
        character("Mặc Đại Phu", &[]),
    ];
    let relationships = vec![
        cloud_relationship("Lập ca", "Hàn Thúc", "kinship", "cháu", "tam thúc", "Hàn Thúc là tam thúc của Hàn Lập"),
        cloud_relationship("Mặc Đại Phu", "Hàn Lập", "kinship", "thầy", "đệ tử", "Mặc Đại Phu dạy Hàn Lập"),
        cloud_relationship("Hàn Thúc", "Hàn Lập", "kinship", "thúc", "cháu", "Hàn Thúc là tam thúc"),
    ];
    let reversed: Vec<CloudRelationship> = relationships
        .iter()
        .map(|r| CloudRelationship {
            source_name: r.target_name.clone(),
            target_name: r.source_name.clone(),
            relationship_scope: r.relationship_scope.clone(),
            relationship_type: r.relationship_type.clone(),
            source_to_target_label: r.target_to_source_label.clone(),
            target_to_source_label: r.source_to_target_label.clone(),
            evidence_quotes: r.evidence_quotes.clone(),
        })
        .collect();
    let mut s1 = Vec::new();
    let mut s2 = Vec::new();
    let forward = build_relationship_records(&ch, &characters, &relationships, &mut s1);
    let backward = build_relationship_records(&ch, &characters, &reversed, &mut s2);
    assert_eq!(forward.len(), 2);
    assert_eq!(record_summary(&forward), record_summary(&backward));
    assert_eq!(forward[0].entity_key.as_deref(), Some("relationship|han_lap|han_thuc"));
    assert_eq!(forward[1].entity_key.as_deref(), Some("relationship|han_lap|mac_dai_phu"));
    assert_eq!(forward[1].fields[0].values[0].value, "đệ tử");
}

#[test]
fn cloud_answers_under_another_schema_or_chapter_fail_the_chapter() {
    assert!(cloud_answer_header_check("  story_chapter_cloud_extraction.v2 \n", 4, 4).is_ok());
    let e = cloud_answer_header_check("story_chapter_cloud_extraction.v1", 4, 4).unwrap_err();
    assert_eq!(e.code, "cloud_schema_mismatch");
    assert_eq!(
        e.reason,
        "cloud schema mismatch: expected story_chapter_cloud_extraction.v2, got story_chapter_cloud_extraction.v1"
    );
    let e = cloud_answer_header_check("story_chapter_cloud_extraction.v2", 5, -4).unwrap_err();
    assert_eq!(e.code, "cloud_chapter_num_mismatch");
    assert_eq!(e.reason, "cloud chapter mismatch: expected -4, got 5");
    let e = cloud_answer_header_check("v9", 5, 4).unwrap_err();
    assert_eq!(e.code, "cloud_schema_mismatch");

    let ch = chapter(4, "Hàn Lập cười.");
    let mut suspects = Vec::new();
    let failed = cloud_pass_for_answer(&ch, "story_chapter_cloud_extraction.v2", 3, &Vec::new(), &Vec::new(), &mut suspects);
    assert_eq!(failed.unwrap_err().code, "cloud_chapter_num_mismatch");
    assert!(suspects.is_empty());
    let ok = cloud_pass_for_answer(&ch, "story_chapter_cloud_extraction.v2", 4, &Vec::new(), &Vec::new(), &mut suspects)
        .unwrap();
    assert_eq!(ok.document.chapter_num, 4);
    assert!(ok.document.records.is_empty());
}
