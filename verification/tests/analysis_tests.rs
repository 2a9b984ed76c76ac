use novelgraph::chunk_prompts::{
    build_alias_ownership_context, build_candidate_pass_context, build_chunk_base_context,
    build_identity_pass_context, build_target_contexts_context, chunk_failure_reason,
    merged_validation_failure_reason, relationship_pass_failure_reason,
};
use novelgraph::analysis::{
    analysis_job_should_stop, build_current_novel_analysis_context, chapter_range_from_input,
    choose_character_extraction_chunk_end, finish_action, next_chapter, run_progress,
    split_chapter_for_character_extraction, validate_chapter_range, ChapterRange, FinishAction,
};
use novelgraph::characters::{
    character_candidate_kind_is_allowed, character_identity_surfaces,
    merge_character_identity_hints, normalize_character_alias_label,
    normalize_character_alias_type, normalize_character_candidates,
    normalize_character_identities, push_character_alias_if_valid, CharacterAlias,
    CharacterCandidate, CharacterIdentity,
};
use novelgraph::domain::{AnalysisChapterRun, AnalysisJob, AnalysisRunStepInput, Chapter, Novel};
use novelgraph::keys::{normalize_ascii_snake_key, normalized_folded_text_key, normalized_text_key};
use novelgraph::mentions::{
    accepted_group_occurrences, character_occurrence_context, mentions_in_text_order,
    plan_mention_scan, sample_character_occurrences_for_confirmation,
    surface_sample_confirmation_can_accept_all,
};
use novelgraph::occurrences::{
    find_surface_occurrences, select_non_overlapping_occurrences, ScannedCharacterOccurrence,
};
use novelgraph::records::{
    one_edit_distance_or_less, probable_alias_record_merge_target, StoryExtractionFieldPayload,
    StoryExtractionFieldValuePayload, StoryExtractionRecordPayload,
};
use novelgraph::domain::StoryCharacterMention;
use novelgraph::surfaces::{
    character_surface_has_uppercase_token, clean_character_surface, is_ambiguous_character_surface,
    is_stable_character_alias_surface, quoted_alias_spans,
};

fn character_record_for_test(
    display_name: &str,
    mention_count: usize,
    aliases: &[&str],
) -> StoryExtractionRecordPayload {
    let mentions = (0..mention_count)
        .map(|index| StoryCharacterMention {
            text: display_name.to_string(),
            start_char: index as i64,
            end_char: index as i64 + display_name.chars().count() as i64,
            mention_type: Some("name".to_string()),
        })
        .collect::<Vec<_>>();
    let alias_values = aliases
        .iter()
        .map(|alias| StoryExtractionFieldValuePayload {
            value: (*alias).to_string(),
            related_character: None,
            relationship_type: None,
            relationship_label: None,
            relationship_direction: None,
            evidence: Vec::new(),
        })
        .collect::<Vec<_>>();
    let fields = if alias_values.is_empty() {
        Vec::new()
    } else {
        vec![StoryExtractionFieldPayload {
            field_key: "other_alias".to_string(),
            field_label: "Tên gọi khác".to_string(),
            values: alias_values,
        }]
    };

    StoryExtractionRecordPayload {
        group_key: "character".to_string(),
        group_label: "Nhân Vật".to_string(),
        entity_key: Some(normalize_ascii_snake_key(display_name)),
        display_name: display_name.to_string(),
        mentions,
        fields,
    }
}

#[test]
fn probable_alias_merge_uses_near_match_only_against_alias_surfaces() {
    let source = character_record_for_test("Hàn Chú", 1, &[]);
    let target = character_record_for_test("Hàn phụ", 4, &[]);
    let records = vec![source, target];

    assert!(probable_alias_record_merge_target(&records, 0).is_none());
}

#[test]
fn probable_alias_merge_accepts_near_match_against_known_alias() {
    let source = character_record_for_test("Anh ngốc", 1, &[]);
    let target = character_record_for_test("Hàn Lập", 10, &["Anh ngố"]);
    let records = vec![source, target];

    assert_eq!(
        probable_alias_record_merge_target(&records, 0),
        Some((1, "near_alias_surface"))
    );
}

#[test]
fn probable_alias_merge_prefers_exact_surface() {
    let source = character_record_for_test("Tam Thúc", 1, &[]);
    let near = character_record_for_test("Hàn Lập", 5, &["Tam Thucc"]);
    let exact = character_record_for_test("Hàn Thúc", 5, &["tam thuc"]);
    let records = vec![source, near, exact];
    assert_eq!(
        probable_alias_record_merge_target(&records, 0),
        Some((2, "exact_alias_surface"))
    );
}

#[test]
fn one_edit_distance_cases() {
    assert!(one_edit_distance_or_less("han_lap", "han_lap"));
    assert!(one_edit_distance_or_less("han_lap", "han_lop"));
    assert!(one_edit_distance_or_less("anh_ngo", "anh_ngoc"));
    assert!(one_edit_distance_or_less("anh_ngoc", "anh_ngo"));
    assert!(one_edit_distance_or_less("abc", "xabc"));
    assert!(!one_edit_distance_or_less("abc", "xyz"));
    assert!(!one_edit_distance_or_less("abc", "abcde"));
    assert!(!one_edit_distance_or_less("abcd", "xabd"));
}

#[test]
fn text_keys() {
    assert_eq!(normalized_text_key("  Hàn Lập!  "), "hàn_lập");
    assert_eq!(normalized_folded_text_key("  Hàn Lập!  "), "han_lap");
    assert_eq!(normalized_text_key("--Tam   Thúc--"), "tam_thúc");
    assert_eq!(normalized_text_key("!!!"), "");
    assert_eq!(normalize_ascii_snake_key("Ngoại hình"), "ngoai_hinh");
    assert_eq!(normalize_ascii_snake_key("already_snake"), "already_snake");
    assert_eq!(normalize_ascii_snake_key("123 tuổi"), "field_123_tuoi");
    assert_eq!(normalize_ascii_snake_key("   "), "field");
    assert_eq!(normalize_ascii_snake_key("Đạo Hữu"), "dao_huu");
}

#[test]
fn cleans_surfaces() {
    assert_eq!(clean_character_surface("  “Hàn   Lập”  "), "Hàn Lập");
    assert_eq!(clean_character_surface("lão giả này"), "lão giả");
    assert_eq!(clean_character_surface("vị Tam Thúc kia"), "Tam Thúc");
    assert_eq!(clean_character_surface("vị tiền bối"), "tiền bối");
    assert_eq!(clean_character_surface("vị lão"), "vị lão");
    assert!(is_stable_character_alias_surface("Anh ngốc", "Anh ngốc"));
    assert!(!is_stable_character_alias_surface("a", "a"));
    assert!(!is_stable_character_alias_surface("x: y", "x y"));
    assert!(!is_stable_character_alias_surface("a (b)", "a (b)"));
    assert!(character_surface_has_uppercase_token("lão Hàn"));
    assert!(!character_surface_has_uppercase_token("lão giả"));
    assert!(is_ambiguous_character_surface("Hàn"));
    assert!(!is_ambiguous_character_surface("Hàn Lập"));
}

#[test]
fn finds_quoted_alias_spans() {
    let spans = quoted_alias_spans("Hắn gọi \"Anh ngốc\" rồi 'x' và “Tam Thúc");
    assert_eq!(spans.len(), 1);
    assert_eq!(spans[0].text, "Anh ngốc");
    assert_eq!(spans[0].start_char, 8);
    assert_eq!(spans[0].end_char, 18);
}

#[test]
fn alias_types_and_labels() {
    assert_eq!(normalize_character_alias_type("Biệt danh"), "nickname");
    assert_eq!(normalize_character_alias_type("vai trò"), "title_or_role");
    assert_eq!(normalize_character_alias_type("pronoun"), "unstable_reference");
    assert_eq!(normalize_character_alias_type("anything"), "other_alias");
    assert_eq!(normalize_character_alias_label("nickname", "  "), "Biệt danh");
    assert_eq!(normalize_character_alias_label("nickname", " Tên thân mật "), "Tên thân mật");
    assert!(character_candidate_kind_is_allowed("Nhân vật"));
    assert!(character_candidate_kind_is_allowed("person"));
    assert!(!character_candidate_kind_is_allowed("location"));
    assert!(!character_candidate_kind_is_allowed(""));
}

fn alias(text: &str, alias_type: &str) -> CharacterAlias {
    CharacterAlias {
        text: text.to_string(),
        alias_type: alias_type.to_string(),
        alias_label: String::new(),
        is_primary: false,
        evidence: Vec::new(),
    }
}

#[test]
fn keeps_only_stable_aliases() {
    let mut aliases = Vec::new();
    push_character_alias_if_valid(&mut aliases, alias("Lệ Phi Vũ", "nickname"), "Hàn Lập");
    push_character_alias_if_valid(&mut aliases, alias("hắn", "pronoun"), "Hàn Lập");
    push_character_alias_if_valid(&mut aliases, alias("Hàn Lập", "other_alias"), "Hàn Lập");
    push_character_alias_if_valid(&mut aliases, alias("lão ma", "other_alias"), "Hàn Lập");
    let mut primary = alias("lệ phi vũ!", "nickname");
    primary.is_primary = true;
    push_character_alias_if_valid(&mut aliases, primary, "Hàn Lập");
    assert_eq!(aliases.len(), 1);
    assert_eq!(aliases[0].text, "Lệ Phi Vũ");
    assert_eq!(aliases[0].alias_label, "Biệt danh");
    assert!(!aliases[0].is_primary);
}

fn identity(name: &str) -> CharacterIdentity {
    CharacterIdentity { name: name.to_string(), aliases: Vec::new() }
}

#[test]
fn normalizes_and_merges_identities() {
    let normalized = normalize_character_identities(vec![
        identity(" “Hàn Lập” "),
        identity("hàn lập"),
        identity("  "),
        identity("Tam Thúc"),
    ]);
    let names = normalized.iter().map(|i| i.name.as_str()).collect::<Vec<_>>();
    assert_eq!(names, vec!["Hàn Lập", "Tam Thúc"]);

    let candidates = normalize_character_candidates(vec![
        CharacterCandidate {
            surface_text: "Mặc đại phu".to_string(),
            display_name: " ".to_string(),
            kind: "person".to_string(),
            role_label: String::new(),
            aliases: Vec::new(),
            evidence: Vec::new(),
        },
        CharacterCandidate {
            surface_text: "Thất Huyền Môn".to_string(),
            display_name: String::new(),
            kind: "organization".to_string(),
            role_label: String::new(),
            aliases: Vec::new(),
            evidence: Vec::new(),
        },
    ]);
    assert_eq!(candidates.len(), 1);
    assert_eq!(candidates[0].name, "Mặc đại phu");

    let mut identities = vec![identity("Hàn Lập")];
    merge_character_identity_hints(&mut identities, vec![identity("HÀN LẬP"), identity("Lệ Phi Vũ")]);
    assert_eq!(identities.len(), 2);
    assert_eq!(identities[1].name, "Lệ Phi Vũ");
}

#[test]
fn identity_surfaces_skip_short_and_repeated() {
    let mut id = identity("Hàn Lập");
    id.aliases.push(alias("hàn lập", "other_alias"));
    id.aliases.push(alias("X", "other_alias"));
    id.aliases.push(alias("Lệ Phi Vũ", "nickname"));
    let surfaces = character_identity_surfaces(&id);
    assert_eq!(
        surfaces,
        vec![
            ("Hàn Lập".to_string(), "name".to_string()),
            ("Lệ Phi Vũ".to_string(), "alias".to_string())
        ]
    );
}

#[test]
fn finds_surface_occurrences_at_word_boundaries() {
    let text = "Hàn Lập gặp hàn Lập. Hàn Lập2 không phải.";
    let found = find_surface_occurrences(text, "Hàn Lập", "name", false);
    let ranges = found.iter().map(|o| (o.start_char, o.end_char)).collect::<Vec<_>>();
    assert_eq!(ranges, vec![(0, 7), (12, 19)]);
    assert_eq!(found[1].text, "hàn Lập");
    assert_eq!(found[1].mention_type, "name");
}

fn occurrence(text: &str, start: i64, end: i64) -> ScannedCharacterOccurrence {
    ScannedCharacterOccurrence {
        text: text.to_string(),
        start_char: start,
        end_char: end,
        mention_type: "name".to_string(),
        ambiguous: false,
    }
}

#[test]
fn selects_longest_non_overlapping_occurrences() {
    let selected = select_non_overlapping_occurrences(vec![
        occurrence("Hàn", 10, 13),
        occurrence("Hàn Lập", 10, 17),
        occurrence("Lập", 14, 17),
        occurrence("Hàn", 0, 3),
    ]);
    let ranges = selected.iter().map(|o| (o.start_char, o.end_char)).collect::<Vec<_>>();
    assert_eq!(ranges, vec![(0, 3), (10, 17)]);
}

#[test]
fn plans_mentions_and_groups_ambiguous_surfaces() {
    let mut id = identity("Hàn Lập");
    id.aliases.push(alias("Lão", "other_alias"));
    let text = "Hàn Lập nói. Lão cười. Lão đi.";
    let plan = plan_mention_scan(&id, text);
    assert_eq!(plan.surface_count, 2);
    assert_eq!(plan.direct.len(), 1);
    assert_eq!(plan.groups.len(), 1);
    assert_eq!(plan.groups[0].key, "alias:lão");
    assert_eq!(plan.groups[0].occurrences.len(), 2);
}

#[test]
fn samples_and_decides_groups() {
    let occurrences = (0..5).map(|i| occurrence("Lão Ma Đầu", i * 20, i * 20 + 10)).collect::<Vec<_>>();
    let samples = sample_character_occurrences_for_confirmation(&occurrences);
    let starts = samples.iter().map(|o| o.start_char).collect::<Vec<_>>();
    assert_eq!(starts, vec![0, 40, 80]);

    assert!(surface_sample_confirmation_can_accept_all("Lão Ma Đầu"));
    assert!(!surface_sample_confirmation_can_accept_all("Lão"));

    let all = accepted_group_occurrences(occurrences.clone(), samples.clone(), &vec![true, true, true]);
    assert_eq!(all.len(), 5);
    let some = accepted_group_occurrences(occurrences, samples, &vec![true, false, true]);
    let starts = some.iter().map(|o| o.start_char).collect::<Vec<_>>();
    assert_eq!(starts, vec![0, 80]);

    let mentions = mentions_in_text_order(vec![occurrence("b", 5, 6), occurrence("ab", 4, 6), occurrence("a", 4, 5)]);
    let ranges = mentions.iter().map(|m| (m.start_char, m.end_char)).collect::<Vec<_>>();
    assert_eq!(ranges, vec![(4, 6), (4, 5), (5, 6)]);
    assert_eq!(mentions[0].mention_type, Some("name".to_string()));
}

#[test]
fn marks_occurrence_context() {
    assert_eq!(character_occurrence_context("abcdefgh", 3, 5, 2), "bc[[de]]fg");
    assert_eq!(character_occurrence_context("abc", 0, 3, 150), "[[abc]]");
}

#[test]
fn splits_long_chapter_into_chunks() {
    let paragraph = "x".repeat(1000);
    let text = format!("{paragraph}\n\n{paragraph}\n\n{paragraph}");
    let chunks = split_chapter_for_character_extraction(&text);
    assert_eq!(chunks.len(), 2);
    assert_eq!(chunks[0].start_char, 0);
    assert_eq!(chunks[0].end_char, 2004);
    assert_eq!(chunks[1].end_char, text.chars().count() as i64);
    assert_eq!(chunks[0].text.chars().count(), 2004);

    let chars = "a".repeat(3000).chars().collect::<Vec<_>>();
    assert_eq!(choose_character_extraction_chunk_end(&chars, 0), 2400);

    let blank = split_chapter_for_character_extraction("   ");
    assert_eq!(blank.len(), 1);
    assert_eq!((blank[0].start_char, blank[0].end_char), (0, 3));
    let empty = split_chapter_for_character_extraction("");
    assert_eq!((empty[0].start_char, empty[0].end_char), (0, 0));
}

#[test]
fn chapter_ranges() {
    assert_eq!(validate_chapter_range(2, 5).unwrap(), ChapterRange { from: 2, to: 5 });
    assert_eq!(
        validate_chapter_range(0, 5).unwrap_err().message,
        "chapter range must start from 1 or greater"
    );
    assert_eq!(
        validate_chapter_range(5, 2).unwrap_err().message,
        "to chapter must be greater than or equal to from chapter"
    );
    let input = AnalysisRunStepInput {
        force: false,
        from_chapter_num: None,
        to_chapter_num: Some(3),
        execution_profile: None,
    };
    assert_eq!(chapter_range_from_input(&input).unwrap(), Some(ChapterRange { from: 3, to: 3 }));
}

fn chapter(id: &str, num: i64) -> Chapter {
    Chapter {
        id: id.to_string(),
        novel_id: "n".to_string(),
        chapter_num: num,
        title: format!("Chương {num}"),
        content: String::new(),
        created_at: String::new(),
        updated_at: String::new(),
    }
}

fn run(chapter_id: &str, status: &str) -> AnalysisChapterRun {
    AnalysisChapterRun {
        id: format!("run-{chapter_id}"),
        project_id: "p".to_string(),
        job_id: "j".to_string(),
        novel_id: "n".to_string(),
        chapter_id: chapter_id.to_string(),
        chapter_num: 0,
        status: status.to_string(),
        attempt: 1,
        prompt_schema_version: None,
        output_json: None,
        error_code: None,
        error_message: None,
        started_at: None,
        finished_at: None,
        created_at: String::new(),
        updated_at: "u".to_string(),
    }
}

fn job(status: &str) -> AnalysisJob {
    AnalysisJob {
        id: "j".to_string(),
        project_id: "p".to_string(),
        novel_id: Some("n".to_string()),
        job_type: "analysis".to_string(),
        status: status.to_string(),
        payload_json: "{}".to_string(),
        started_at: None,
        finished_at: None,
        error_code: None,
        error_message: Some("stopped".to_string()),
        created_at: String::new(),
        updated_at: String::new(),
    }
}

#[test]
fn next_chapter_and_progress() {
    let chapters = vec![chapter("c1", 1), chapter("c2", 2), chapter("c3", 3)];
    let runs = vec![run("c1", "completed"), run("c2", "failed")];
    assert_eq!(next_chapter(&chapters, &runs, None).unwrap().id, "c2");
    let range = Some(ChapterRange { from: 3, to: 3 });
    assert_eq!(next_chapter(&chapters, &runs, range).unwrap().id, "c3");
    assert!(next_chapter(&chapters, &runs, Some(ChapterRange { from: 1, to: 1 })).is_none());

    match finish_action(&chapters, &runs, Some(ChapterRange { from: 1, to: 1 })) {
        FinishAction::PauseRange { reason } => assert_eq!(reason, "Đã chạy xong phạm vi chương 1 -> 1."),
        _ => panic!("expected the range to pause"),
    }
    let all_done = vec![run("c1", "completed"), run("c2", "completed"), run("c3", "completed")];
    assert!(matches!(finish_action(&chapters, &all_done, None), FinishAction::CompleteJob));

    let progress = run_progress(&job("paused"), &chapters, &runs, None);
    assert_eq!(progress.total_chapters, 3);
    assert_eq!(progress.completed_chapters, 1);
    assert_eq!(progress.failed_chapters, 1);
    assert_eq!(progress.pending_chapters, 1);
    assert_eq!(progress.next_chapter_num, Some(2));
    assert_eq!(progress.paused_reason, Some("stopped".to_string()));
    assert_eq!(progress.chapters[0].run_id, Some("run-c1".to_string()));

    assert!(analysis_job_should_stop(&job("cancelled")));
    assert!(!analysis_job_should_stop(&job("running")));
}

#[test]
fn novel_context_lists_trimmed_metadata() {
    let novel = Novel {
        id: "n".to_string(),
        project_id: "p".to_string(),
        title: " Phàm Nhân Tu Tiên ".to_string(),
        author: Some(" Vong Ngữ ".to_string()),
        source_language: None,
        genre: Some("Tiên hiệp".to_string()),
        description: None,
        created_at: String::new(),
        updated_at: String::new(),
    };
    let context = build_current_novel_analysis_context(&novel);
    assert!(context.starts_with(
        "Current novel metadata:\n- Title: Phàm Nhân Tu Tiên\n- Author: Vong Ngữ\n- Source language: \n- Genre: Tiên hiệp\n- Description: \n\nGenre guidance:\n"
    ));
}

#[test]
fn chunk_contexts_frame_each_pass() {
    let base = build_chunk_base_context("NOVEL", 0, 3);
    assert_eq!(
        base,
        "NOVEL\n\nĐây là đoạn nhỏ 1/3 của chương hiện tại. Mỗi pass chỉ xử lý dữ liệu có trong đoạn này. Offset mention phải tính từ CHAPTER_TEXT của đoạn này; backend sẽ tự quy đổi về toàn chương."
    );
    let candidate = build_candidate_pass_context("B", "[]");
    assert!(candidate.starts_with("B\n\nKnown character/alias surfaces already present in this chunk from previous chapters:\n[]\n\nNếu một known surface"));
    let identity = build_identity_pass_context("B", "[k]", "[c]");
    assert!(identity.contains("[k]\n\nCandidate coverage checklist từ pass quét nhanh trước identity:\n[c]\n\nIdentity pass"));
    let ownership = build_alias_ownership_context("B", "[q]");
    assert!(ownership.contains("không tự kết luận owner:\n[q]\n\nDùng checklist"));
    let targets = build_target_contexts_context("NOVEL", 1, 2);
    assert!(targets.starts_with("NOVEL\n\nĐây là TARGET_CONTEXTS đã được backend chọn từ đoạn nhỏ 2/2 của chương"));
    assert_eq!(chunk_failure_reason("identity", 1, 3, None, "boom"), "character identity chunk 2/3 failed: boom");
    assert_eq!(
        chunk_failure_reason("fields", 0, 2, Some("Hàn Lập"), "bad"),
        "character fields chunk 1/2 for Hàn Lập failed: bad"
    );
    assert_eq!(relationship_pass_failure_reason("x"), "character relationship pass failed: x");
    assert_eq!(merged_validation_failure_reason("y"), "character extraction merged result failed validation: y");
}
