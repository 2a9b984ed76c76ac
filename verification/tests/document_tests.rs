use novelgraph::characters::{CharacterAlias, CharacterIdentity};
use novelgraph::documents::{
    character_field_value_key, dedupe_character_records_by_identity, ensure_character_record,
    evidence_span_key, identity_to_record, is_relationship_field_key,
    is_valid_relationship_field_value, merge_character_field, merge_character_field_values,
    merge_character_identity_fields, merge_character_identity_mentions,
    merge_character_identity_records, merge_character_mentions, merge_character_record,
    merge_duplicate_character_field_value, merge_story_evidence, normalize_character_field_keys,
    payload_record_matches_identity, validate_character_extraction_document,
    validate_character_record, MSG_DISPLAY_NAME, MSG_GROUP_KEY, MSG_MENTION_SPAN,
    MSG_RELATIONSHIP_VALUE, MSG_VALUE,
};
use novelgraph::domain::{StoryCharacterMention, StoryEvidenceSpan};
use novelgraph::records::{
    StoryExtractionDocument, StoryExtractionFieldPayload, StoryExtractionFieldValuePayload,
    StoryExtractionRecordPayload,
};

fn span(chapter_num: i64, quote: &str) -> StoryEvidenceSpan {
    StoryEvidenceSpan {
        chapter_num,
        start_char: Some(0),
        end_char: Some(4),
        quote: Some(quote.to_string()),
        reason: Some("seen".to_string()),
    }
}

fn value(text: &str) -> StoryExtractionFieldValuePayload {
    StoryExtractionFieldValuePayload {
        value: text.to_string(),
        related_character: None,
        relationship_type: None,
        relationship_label: None,
        relationship_direction: None,
        evidence: vec![span(2, text)],
    }
}

fn field(key: &str, values: Vec<StoryExtractionFieldValuePayload>) -> StoryExtractionFieldPayload {
    StoryExtractionFieldPayload {
        field_key: key.to_string(),
        field_label: format!("{key} label"),
        values,
    }
}

fn mention(start: i64, end: i64, text: &str) -> StoryCharacterMention {
    StoryCharacterMention {
        text: text.to_string(),
        start_char: start,
        end_char: end,
        mention_type: Some("name".to_string()),
    }
}

fn record(display_name: &str, fields: Vec<StoryExtractionFieldPayload>) -> StoryExtractionRecordPayload {
    StoryExtractionRecordPayload {
        group_key: "character".to_string(),
        group_label: "Nhân Vật".to_string(),
        entity_key: None,
        display_name: display_name.to_string(),
        mentions: vec![mention(0, 3, "Hàn")],
        fields,
    }
}

fn document(records: Vec<StoryExtractionRecordPayload>) -> StoryExtractionDocument {
    StoryExtractionDocument {
        schema_version: "story_character_extraction.v1".to_string(),
        chapter_num: 2,
        records,
    }
}

fn alias(text: &str, alias_type: &str, evidence: Vec<StoryEvidenceSpan>) -> CharacterAlias {
    CharacterAlias {
        text: text.to_string(),
        alias_type: alias_type.to_string(),
        alias_label: String::new(),
        is_primary: false,
        evidence,
    }
}

fn error_message(result: Result<(), novelgraph::errors::ApiError>) -> String {
    let error = result.unwrap_err();
    assert_eq!(error.status, 400);
    error.message
}

#[test]
fn validates_character_records() {
    let text = "Hàn Lập đi chợ.";
    assert!(validate_character_record(&record("Hàn Lập", vec![field("tall", vec![value("cao")])]), 2, text).is_ok());

    let mut wrong_group = record("Hàn Lập", Vec::new());
    wrong_group.group_key = "place".to_string();
    assert_eq!(error_message(validate_character_record(&wrong_group, 2, text)), MSG_GROUP_KEY);

    assert_eq!(
        error_message(validate_character_record(&record("  ", Vec::new()), 2, text)),
        MSG_DISPLAY_NAME
    );

    let mut outside = record("Hàn Lập", Vec::new());
    outside.mentions = vec![mention(10, 40, "Hàn")];
    assert_eq!(error_message(validate_character_record(&outside, 2, text)), MSG_MENTION_SPAN);

    let mut relationship_outside = outside.clone();
    relationship_outside.group_key = "relationship".to_string();
    assert!(validate_character_record(&relationship_outside, 2, text).is_ok());

    assert_eq!(
        error_message(validate_character_record(
            &record("Hàn Lập", vec![field("appearance", vec![value(" ")])]),
            2,
            text
        )),
        MSG_VALUE
    );
    assert_eq!(
        error_message(validate_character_record(
            &record("Hàn Lập", vec![field("Relationship", vec![value("uncle")])]),
            2,
            text
        )),
        MSG_RELATIONSHIP_VALUE
    );

    let mut other_chapter = value("cao");
    other_chapter.evidence = vec![span(3, "cao")];
    assert_eq!(
        error_message(validate_character_record(
            &record("Hàn Lập", vec![field("height", vec![other_chapter])]),
            2,
            text
        )),
        "character extraction evidence chapter_num does not match the running chapter: record=Hàn Lập, field=height, value=cao, evidence_chapter_num=3, expected_chapter_num=2"
    );

    let mut long_span = value("cao");
    long_span.evidence[0].end_char = Some(99);
    assert_eq!(
        error_message(validate_character_record(
            &record("Hàn Lập", vec![field("height", vec![long_span])]),
            2,
            text
        )),
        "character extraction evidence span is outside chapter bounds"
    );
}

#[test]
fn validates_documents() {
    let mut doc = document(vec![record("Hàn Lập", Vec::new())]);
    assert!(validate_character_extraction_document(&doc, 2, "Hàn Lập").is_ok());
    assert_eq!(
        error_message(validate_character_extraction_document(&doc, 3, "Hàn Lập")),
        "character extraction chapter_num does not match the running chapter"
    );
    doc.schema_version = "other".to_string();
    assert_eq!(
        error_message(validate_character_extraction_document(&doc, 2, "Hàn Lập")),
        "character extraction schema mismatch: expected story_character_extraction.v1, got other"
    );
}

#[test]
fn relationship_values_need_every_detail() {
    assert!(is_relationship_field_key("family_relation"));
    assert!(!is_relationship_field_key("appearance"));
    let mut v = value("uncle");
    v.related_character = Some("Tam Thúc".to_string());
    v.relationship_type = Some("kinship".to_string());
    v.relationship_label = Some("uncle".to_string());
    v.relationship_direction = Some("self_to_related".to_string());
    assert!(is_valid_relationship_field_value(&v));
    v.relationship_direction = Some("sideways".to_string());
    assert!(!is_valid_relationship_field_value(&v));
    v.relationship_direction = Some("related_to_self".to_string());
    v.evidence[0].quote = Some("  ".to_string());
    assert!(!is_valid_relationship_field_value(&v));
}

#[test]
fn normalizes_field_keys() {
    let mut doc = document(vec![record("Hàn Lập", vec![field("Other Name", vec![value("Lập")])])]);
    normalize_character_field_keys(&mut doc);
    assert_eq!(doc.records[0].fields[0].field_key, "other_name");
    assert_eq!(doc.records[0].fields[0].field_label, "Other Name label");
}

#[test]
fn evidence_and_values_merge_once_per_key() {
    let first = span(2, "quote");
    assert_eq!(evidence_span_key(&first), "0:4:quote:seen");
    let mut evidence = vec![first.clone()];
    let mut again = first.clone();
    again.quote = Some(" quote ".to_string());
    merge_story_evidence(&mut evidence, vec![again, span(2, "other"), span(2, "other")]);
    assert_eq!(evidence.len(), 2);
    assert_eq!(evidence[1].quote.as_deref(), Some("other"));

    assert_eq!(character_field_value_key(&value("Tall Man")), "tall_man::::");
    let mut values = vec![value("Tall")];
    let mut tall = value("tall");
    tall.related_character = Some("Tam Thúc".to_string());
    tall.evidence = vec![span(2, "second")];
    merge_character_field_values(&mut values, vec![value("TALL"), value("Short"), tall]);
    assert_eq!(values.len(), 3);
    assert_eq!(values[0].value, "Tall");
    assert_eq!(values[0].evidence.len(), 2);
    assert_eq!(values[1].value, "Short");
    assert_eq!(values[2].related_character.as_deref(), Some("Tam Thúc"));
}

#[test]
fn fields_merge_by_key_or_into_duplicates() {
    let mut fields = vec![field("appearance", vec![value("Tall")])];
    merge_character_field(&mut fields, field("Appearance", vec![value("Thin")]));
    assert_eq!(fields.len(), 1);
    assert_eq!(fields[0].values.len(), 2);

    merge_character_field(&mut fields, field("Other Alias", vec![value("tall")]));
    assert_eq!(fields.len(), 1);
    assert_eq!(fields[0].values[0].evidence.len(), 2);

    merge_character_field(&mut fields, field("Personality", vec![value("Kind"), value("  ")]));
    assert_eq!(fields.len(), 2);
    assert_eq!(fields[1].field_key, "personality");
    assert_eq!(fields[1].values.len(), 1);

    let kept = merge_duplicate_character_field_value(&mut fields, "relationship", value("Tall"));
    assert_eq!(kept.map(|v| v.value), Some("Tall".to_string()));
}

#[test]
fn mentions_merge_once_and_sort() {
    let mut mentions = vec![mention(5, 8, "Lập")];
    merge_character_mentions(
        &mut mentions,
        vec![mention(5, 8, " Lập "), mention(0, 3, "Hàn"), mention(0, 7, "Hàn Lập")],
    );
    let spans: Vec<(i64, i64)> = mentions.iter().map(|m| (m.start_char, m.end_char)).collect();
    assert_eq!(spans, vec![(0, 7), (0, 3), (5, 8)]);
}

#[test]
fn records_of_identities() {
    let identity = CharacterIdentity {
        name: "Hàn Lập".to_string(),
        aliases: vec![
            alias("Lập Ca", "nickname", vec![span(2, "Lập Ca"), span(3, "Lập Ca")]),
            alias("đại ca", "pronoun", Vec::new()),
        ],
    };
    let built = identity_to_record(&identity, 2);
    assert_eq!(built.group_key, "character");
    assert_eq!(built.group_label, "Nhân Vật");
    assert_eq!(built.entity_key.as_deref(), Some("han_lap"));
    assert_eq!(built.fields.len(), 1);
    assert_eq!(built.fields[0].field_key, "other_alias");
    assert_eq!(built.fields[0].field_label, "Tên gọi khác");
    assert_eq!(built.fields[0].values.len(), 1);
    assert_eq!(built.fields[0].values[0].value, "Lập Ca");
    assert_eq!(built.fields[0].values[0].evidence.len(), 1);

    let by_alias = record("Lập ca ca", vec![field("Other Name", vec![value("Lập Ca")])]);
    assert!(payload_record_matches_identity(&by_alias, &identity));
    assert!(!payload_record_matches_identity(&record("Tam Thúc", Vec::new()), &identity));

    let mut doc = document(vec![record("Tam Thúc", Vec::new())]);
    assert_eq!(ensure_character_record(&mut doc, &identity), 1);
    assert_eq!(doc.records.len(), 2);
    assert_eq!(ensure_character_record(&mut doc, &identity), 1);
    merge_character_identity_mentions(&mut doc, &identity, vec![mention(4, 7, "Lập")]);
    assert_eq!(doc.records[1].mentions.len(), 1);
    merge_character_identity_fields(&mut doc, &identity, vec![field("status", vec![value("alive")])]);
    assert_eq!(doc.records[1].fields.len(), 2);
}

#[test]
fn identity_records_merge_and_dedupe() {
    let identity = CharacterIdentity {
        name: "Hàn Lập".to_string(),
        aliases: vec![alias("Lập Ca", "nickname", vec![span(2, "Lập Ca")])],
    };
    let mut doc = document(vec![
        record("hàn lập", vec![field("status", vec![value("alive")])]),
        record("Người Lạ", Vec::new()),
    ]);
    merge_character_identity_records(&mut doc, &vec![identity]);
    assert_eq!(doc.records.len(), 2);
    assert_eq!(doc.records[0].display_name, "Hàn Lập");
    assert_eq!(doc.records[0].entity_key.as_deref(), Some("han_lap"));
    assert_eq!(doc.records[0].fields.len(), 2);
    assert_eq!(doc.records[0].fields[1].field_key, "other_alias");

    let mut dup_doc = document(vec![
        record("Hàn Lập", Vec::new()),
        record("Lập Ca", vec![field("other_alias", vec![value("Hàn Lập")])]),
        record("Tam Thúc", Vec::new()),
    ]);
    dup_doc.records[1].mentions = vec![mention(9, 12, "Lập")];
    dedupe_character_records_by_identity(&mut dup_doc);
    assert_eq!(dup_doc.records.len(), 2);
    assert_eq!(dup_doc.records[0].display_name, "Hàn Lập");
    assert_eq!(dup_doc.records[0].mentions.len(), 2);
    assert_eq!(dup_doc.records[0].fields.len(), 1);
    assert_eq!(dup_doc.records[1].display_name, "Tam Thúc");

    let mut target = record("Hàn Lập", Vec::new());
    let mut source = record("Hàn Lập", vec![field("status", vec![value("alive")])]);
    source.entity_key = Some("han_lap".to_string());
    merge_character_record(&mut target, source);
    assert_eq!(target.entity_key.as_deref(), Some("han_lap"));
    assert_eq!(target.mentions.len(), 1);
    assert_eq!(target.fields.len(), 1);
}
