use novelgraph::characters::{CharacterAlias, CharacterIdentity};
use novelgraph::domain::StoryEvidenceSpan;
use novelgraph::keys::normalize_ascii_snake_key;
use novelgraph::records::{
    merge_relationship_field_values, StoryExtractionFieldPayload, StoryExtractionFieldValuePayload,
};
use novelgraph::relationships::{
    build_known_relationship_context, current_chapter_identity_keys,
    known_relationship_hints_match, merge_known_relationship_hint, push_known_relationship_hint,
    relationship_record_display_pair, relationship_record_pair_keys,
    relationship_value_pair_direction, sort_dedup, KnownRelationshipHint,
    RelationshipPairDirection, StoryExtractionFieldValueView, StoryExtractionFieldView,
    StoryExtractionRecordView, FIELD_KEY_RELATIONSHIP, GROUP_KEY_RELATIONSHIP,
    KNOWN_RELATIONSHIP_CONTEXT_LIMIT, RELATIONSHIP_DIRECTION_RELATED_TO_SELF,
    RELATIONSHIP_DIRECTION_SELF_TO_RELATED,
};

const FIELD_LABEL_RELATIONSHIP: &str = "Quan hệ";
const GROUP_LABEL_RELATIONSHIP: &str = "Quan Hệ";
const EVIDENCE_REASON_CLOUD_RELATIONSHIP: &str = "cloud_relationship";
const CLOUD_SCHEMA: &str = "story_chapter_cloud_extraction.v2";

fn relationship_value_for_test(
    label: &str,
    relationship_type: &str,
    related_character: &str,
    direction: &str,
    chapter_num: i64,
    quote: &str,
) -> StoryExtractionFieldValuePayload {
    StoryExtractionFieldValuePayload {
        value: label.to_string(),
        related_character: Some(related_character.to_string()),
        relationship_type: Some(relationship_type.to_string()),
        relationship_label: Some(label.to_string()),
        relationship_direction: Some(direction.to_string()),
        evidence: vec![StoryEvidenceSpan {
            chapter_num,
            start_char: Some(0),
            end_char: Some(quote.chars().count() as i64),
            quote: Some(quote.to_string()),
            reason: Some(EVIDENCE_REASON_CLOUD_RELATIONSHIP.to_string()),
        }],
    }
}

fn relationship_value_view_for_test(
    label: &str,
    relationship_type: &str,
    related_character: &str,
    direction: &str,
    chapter_num: i64,
) -> StoryExtractionFieldValueView {
    StoryExtractionFieldValueView {
        id: format!("value-{chapter_num}-{label}-{direction}"),
        field_id: "field".to_string(),
        value: label.to_string(),
        related_character: Some(related_character.to_string()),
        relationship_type: Some(relationship_type.to_string()),
        relationship_label: Some(label.to_string()),
        relationship_direction: Some(direction.to_string()),
        evidence: vec![StoryEvidenceSpan {
            chapter_num,
            start_char: None,
            end_char: None,
            quote: Some(format!("quote {chapter_num}")),
            reason: Some(EVIDENCE_REASON_CLOUD_RELATIONSHIP.to_string()),
        }],
        created_at: String::new(),
        updated_at: String::new(),
    }
}

fn relationship_record_view_for_test(
    chapter_num: i64,
    left_name: &str,
    right_name: &str,
    left_label: &str,
    right_label: &str,
) -> StoryExtractionRecordView {
    let left_key = normalize_ascii_snake_key(left_name);
    let right_key = normalize_ascii_snake_key(right_name);
    StoryExtractionRecordView {
        id: format!("record-{chapter_num}-{left_key}-{right_key}"),
        project_id: "project".to_string(),
        novel_id: "novel".to_string(),
        chapter_id: format!("chapter-{chapter_num}"),
        job_id: "job".to_string(),
        run_id: "run".to_string(),
        chapter_num,
        group_key: GROUP_KEY_RELATIONSHIP.to_string(),
        group_label: GROUP_LABEL_RELATIONSHIP.to_string(),
        entity_key: Some(format!("relationship|{left_key}|{right_key}")),
        display_name: format!("{left_name} ↔ {right_name}"),
        prompt_schema_version: CLOUD_SCHEMA.to_string(),
        mentions: Vec::new(),
        fields: vec![StoryExtractionFieldView {
            id: format!("field-{chapter_num}-{left_key}-{right_key}"),
            record_id: format!("record-{chapter_num}-{left_key}-{right_key}"),
            field_key: FIELD_KEY_RELATIONSHIP.to_string(),
            field_label: FIELD_LABEL_RELATIONSHIP.to_string(),
            values: vec![
                relationship_value_view_for_test(
                    left_label,
                    "kinship_uncle",
                    right_name,
                    RELATIONSHIP_DIRECTION_SELF_TO_RELATED,
                    chapter_num,
                ),
                relationship_value_view_for_test(
                    right_label,
                    "kinship_uncle",
                    left_name,
                    RELATIONSHIP_DIRECTION_RELATED_TO_SELF,
                    chapter_num,
                ),
            ],
            created_at: String::new(),
            updated_at: String::new(),
        }],
        created_at: String::new(),
        updated_at: String::new(),
    }
}

fn identity(name: &str) -> CharacterIdentity {
    CharacterIdentity {
        name: name.to_string(),
        aliases: Vec::new(),
    }
}

#[test]
fn relationship_merge_collapses_label_variants_and_keeps_evidence() {
    let mut field = StoryExtractionFieldPayload {
        field_key: FIELD_KEY_RELATIONSHIP.to_string(),
        field_label: FIELD_LABEL_RELATIONSHIP.to_string(),
        values: vec![relationship_value_for_test(
            "uncle",
            "kinship_uncle",
            "Hàn Lập",
            RELATIONSHIP_DIRECTION_SELF_TO_RELATED,
            1,
            "quote one",
        )],
    };

    merge_relationship_field_values(
        &mut field,
        vec![relationship_value_for_test(
            "uncle by blood",
            "kinship_uncle",
            "Hàn Lập",
            RELATIONSHIP_DIRECTION_SELF_TO_RELATED,
            1,
            "quote two",
        )],
    );

    assert_eq!(field.values.len(), 1);
    assert_eq!(
        field.values[0].relationship_label.as_deref(),
        Some("uncle by blood")
    );
    assert_eq!(field.values[0].evidence.len(), 2);
}

#[test]
fn known_relationship_context_uses_only_prior_visible_endpoint_pairs() {
    let identities = vec![
        CharacterIdentity {
            name: "Hàn Lập".to_string(),
            aliases: Vec::new(),
        },
        CharacterIdentity {
            name: "Tam Thúc".to_string(),
            aliases: Vec::new(),
        },
    ];
    let records = vec![
        relationship_record_view_for_test(1, "Hàn Lập", "Tam Thúc", "uncle", "nephew"),
        relationship_record_view_for_test(3, "Hàn Lập", "Tam Thúc", "uncle", "nephew"),
        relationship_record_view_for_test(1, "Hàn Lập", "Người Lạ", "ally", "ally"),
    ];

    let hints = build_known_relationship_context(&records, &identities, 2);

    assert_eq!(hints.len(), 1);
    assert_eq!(hints[0].left_name, "Hàn Lập");
    assert_eq!(hints[0].right_name, "Tam Thúc");
    assert_eq!(hints[0].evidence_chapter_nums, vec![1]);
}

#[test]
fn known_context_reads_labels_by_direction_and_merges_chapters() {
    let identities = vec![identity("Hàn Lập"), identity("Tam Thúc")];
    let records = vec![
        relationship_record_view_for_test(1, "Hàn Lập", "Tam Thúc", "uncle", "nephew"),
        relationship_record_view_for_test(3, "Hàn Lập", "Tam Thúc", "uncle by blood", "nephew"),
    ];

    let hints = build_known_relationship_context(&records, &identities, 5);

    assert_eq!(hints.len(), 1);
    assert_eq!(hints[0].left_key, "han_lap");
    assert_eq!(hints[0].right_key, "tam_thuc");
    assert_eq!(hints[0].relationship_type, "kinship_uncle");
    assert_eq!(hints[0].left_to_right_label.as_deref(), Some("uncle by blood"));
    assert_eq!(hints[0].right_to_left_label.as_deref(), Some("nephew"));
    assert_eq!(hints[0].evidence_chapter_nums, vec![1, 3]);
}

#[test]
fn known_context_is_empty_without_current_characters() {
    let records = vec![relationship_record_view_for_test(
        1, "Hàn Lập", "Tam Thúc", "uncle", "nephew",
    )];
    assert!(build_known_relationship_context(&records, &Vec::new(), 5).is_empty());
}

#[test]
fn known_context_matches_aliases_and_stops_at_the_limit() {
    let mut identities = Vec::new();
    let mut records = Vec::new();
    for index in 0..30 {
        identities.push(identity(&format!("Left {index}")));
        identities.push(CharacterIdentity {
            name: format!("Right {index}"),
            aliases: vec![CharacterAlias {
                text: format!("Other {index}"),
                alias_type: "other_alias".to_string(),
                alias_label: "Tên gọi khác".to_string(),
                is_primary: false,
                evidence: Vec::new(),
            }],
        });
        records.push(relationship_record_view_for_test(
            1,
            &format!("Left {index}"),
            &format!("Other {index}"),
            "friend",
            "friend",
        ));
    }
    let keys = current_chapter_identity_keys(&identities);
    assert_eq!(keys.len(), 90);
    assert_eq!(keys[2], "other_0");

    let hints = build_known_relationship_context(&records, &identities, 2);
    assert_eq!(hints.len(), KNOWN_RELATIONSHIP_CONTEXT_LIMIT);
    assert_eq!(hints[23].right_key, "other_23");
}

#[test]
fn pair_keys_and_display_names() {
    let mut record = relationship_record_view_for_test(1, "Hàn Lập", "Tam Thúc", "a", "b");
    assert_eq!(
        relationship_record_pair_keys(&record),
        Some(("han_lap".to_string(), "tam_thuc".to_string()))
    );
    assert_eq!(
        relationship_record_display_pair(&record, "han_lap", "tam_thuc"),
        ("Hàn Lập".to_string(), "Tam Thúc".to_string())
    );

    record.display_name = "Hàn Lập".to_string();
    assert_eq!(
        relationship_record_display_pair(&record, "han_lap", "tam_thuc"),
        ("han lap".to_string(), "tam thuc".to_string())
    );

    record.entity_key = Some("character|han_lap|tam_thuc".to_string());
    assert_eq!(relationship_record_pair_keys(&record), None);
    record.entity_key = Some("relationship|han_lap".to_string());
    assert_eq!(relationship_record_pair_keys(&record), None);
    record.entity_key = None;
    assert_eq!(relationship_record_pair_keys(&record), None);
}

#[test]
fn pair_direction_from_direction_or_related_character() {
    let mut value = relationship_value_view_for_test(
        "uncle",
        "kinship_uncle",
        "Tam Thúc",
        RELATIONSHIP_DIRECTION_SELF_TO_RELATED,
        1,
    );
    let direction =
        |v: &StoryExtractionFieldValueView| relationship_value_pair_direction(v, "han_lap", "Hàn Lập", "tam_thuc", "Tam Thúc");
    assert_eq!(direction(&value), Some(RelationshipPairDirection::LeftToRight));
    value.relationship_direction = Some("Related To Self".to_string());
    assert_eq!(direction(&value), Some(RelationshipPairDirection::RightToLeft));
    value.relationship_direction = None;
    assert_eq!(direction(&value), Some(RelationshipPairDirection::LeftToRight));
    value.related_character = Some("han_lap".to_string());
    assert_eq!(direction(&value), Some(RelationshipPairDirection::RightToLeft));
    value.related_character = Some("Người Lạ".to_string());
    assert_eq!(direction(&value), None);
}

fn hint(relationship_type: &str, left_label: Option<&str>, nums: Vec<i64>) -> KnownRelationshipHint {
    KnownRelationshipHint {
        left_key: "han_lap".to_string(),
        left_name: "Hàn Lập".to_string(),
        right_key: "tam_thuc".to_string(),
        right_name: "Tam Thúc".to_string(),
        relationship_type: relationship_type.to_string(),
        left_to_right_label: left_label.map(str::to_string),
        right_to_left_label: None,
        evidence_chapter_nums: nums,
    }
}

#[test]
fn hints_merge_when_type_or_label_agrees() {
    assert!(known_relationship_hints_match(
        &hint("kinship", None, vec![1]),
        &hint("kinship", None, vec![2])
    ));
    assert!(known_relationship_hints_match(
        &hint("kinship", Some("uncle"), vec![1]),
        &hint("kinship_uncle", Some("uncle by blood"), vec![2])
    ));
    assert!(!known_relationship_hints_match(
        &hint("kinship", Some("uncle"), vec![1]),
        &hint("ally", Some("friend"), vec![2])
    ));

    let mut target = hint("kinship", Some("uncle"), vec![3, 1]);
    merge_known_relationship_hint(&mut target, hint("kinship_uncle", Some("uncle by blood"), vec![2, 3]));
    assert_eq!(target.relationship_type, "kinship_uncle");
    assert_eq!(target.left_to_right_label.as_deref(), Some("uncle by blood"));
    assert_eq!(target.evidence_chapter_nums, vec![1, 2, 3]);

    let mut hints = vec![hint("kinship", None, vec![1])];
    push_known_relationship_hint(&mut hints, hint("ally", Some("friend"), vec![2]));
    push_known_relationship_hint(&mut hints, hint("kinship", None, vec![4]));
    assert_eq!(hints.len(), 2);
    assert_eq!(hints[0].evidence_chapter_nums, vec![1, 4]);
}

#[test]
fn sorts_and_dedups_chapter_numbers() {
    assert_eq!(sort_dedup(&vec![5, 1, 3, 1, 5, -2]), vec![-2, 1, 3, 5]);
    assert!(sort_dedup(&Vec::new()).is_empty());
}

#[test]
fn known_context_ignores_records_of_the_current_and_later_chapters() {
    let identities = vec![identity("Hàn Lập"), identity("Tam Thúc")];
    let earlier = vec![relationship_record_view_for_test(1, "Hàn Lập", "Tam Thúc", "uncle", "nephew")];
    let mut with_later = earlier.clone();
    with_later.push(relationship_record_view_for_test(2, "Hàn Lập", "Tam Thúc", "father", "son"));
    with_later.insert(0, relationship_record_view_for_test(5, "Hàn Lập", "Tam Thúc", "enemy", "enemy"));
    let a = build_known_relationship_context(&earlier, &identities, 2);
    let b = build_known_relationship_context(&with_later, &identities, 2);
    assert_eq!(a.len(), 1);
    assert_eq!(b.len(), 1);
    assert_eq!(a[0].relationship_type, b[0].relationship_type);
    assert_eq!(a[0].left_to_right_label, b[0].left_to_right_label);
    assert_eq!(a[0].right_to_left_label, b[0].right_to_left_label);
    assert_eq!(a[0].evidence_chapter_nums, vec![1]);
    assert_eq!(b[0].evidence_chapter_nums, vec![1]);
    assert!(build_known_relationship_context(&with_later, &Vec::new(), 2).is_empty());
}
