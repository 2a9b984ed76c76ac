use novelgraph::alias_context::{
    alias_evidence_mentions_surface, alias_ownership_can_be_applied,
    character_surfaces_share_distinctive_token, distinctive_surface_tokens,
    find_character_identity_index_by_surface, identity_names_in_text,
    nearest_identity_before_alias_quote, normalize_alias_ownership_evidence,
    quoted_alias_candidate_context, sentence_end_after, sentence_start_before,
    slice_text_by_char_range,
};
use novelgraph::characters::{CharacterAlias, CharacterIdentity};
use novelgraph::domain::{Chapter, StoryEvidenceSpan};
use novelgraph::field_context::{
    build_character_field_contexts, character_identity_value_keys,
    field_value_has_quoted_evidence, field_value_has_target_marker,
    field_value_is_grounded_in_quoted_evidence, field_value_semantic_class_is_allowed,
    field_value_verification_owner_matches_identity, insert_character_field_markers,
    mark_character_field_context, normalize_character_minimal_field,
    normalized_field_value_tokens, split_character_field_sentences,
    strip_character_field_markers_from_evidence,
};
use novelgraph::occurrences::ScannedCharacterOccurrence;
use novelgraph::records::StoryExtractionFieldValuePayload;
use novelgraph::relationship_pass::{
    chapter_text_contains_evidence_quote, normalize_character_relationships,
    normalize_relationship_candidate_kind, relationship_candidate_has_grounded_evidence,
    relationship_candidate_to_pair_extraction, relationship_pair_to_record,
    relationship_scope_is_persistable, resolve_relationship_identity_index,
    CharacterRelationshipCandidate, CharacterRelationshipExtraction,
};

fn alias(text: &str) -> CharacterAlias {
    CharacterAlias {
        text: text.to_string(),
        alias_type: "nickname".to_string(),
        alias_label: String::new(),
        is_primary: false,
        evidence: Vec::new(),
    }
}

fn identity(name: &str, aliases: &[&str]) -> CharacterIdentity {
    CharacterIdentity {
        name: name.to_string(),
        aliases: aliases.iter().map(|text| alias(text)).collect(),
    }
}

fn quote(text: Option<&str>) -> StoryEvidenceSpan {
    StoryEvidenceSpan {
        chapter_num: 9,
        start_char: Some(1),
        end_char: Some(3),
        quote: text.map(str::to_string),
        reason: Some("why".to_string()),
    }
}

fn chapter(content: &str) -> Chapter {
    Chapter {
        id: "c".to_string(),
        novel_id: "n".to_string(),
        chapter_num: 2,
        title: "t".to_string(),
        content: content.to_string(),
        created_at: String::new(),
        updated_at: String::new(),
    }
}

fn extraction(kind: &str, forward: &str, backward: &str, quotes: &[Option<&str>]) -> CharacterRelationshipExtraction {
    CharacterRelationshipExtraction {
        relationship_type: kind.to_string(),
        a_to_b_label: forward.to_string(),
        b_to_a_label: backward.to_string(),
        evidence: quotes.iter().map(|q| quote(*q)).collect(),
    }
}

#[test]
fn candidate_kinds_and_scopes() {
    assert_eq!(normalize_relationship_candidate_kind("Direct Relation"), "stable_relation");
    assert_eq!(normalize_relationship_candidate_kind("scene interaction"), "temporary_interaction");
    assert_eq!(normalize_relationship_candidate_kind("Action"), "event");
    assert_eq!(normalize_relationship_candidate_kind("maybe"), "uncertain");
    assert!(relationship_scope_is_persistable("Kinship"));
    assert!(relationship_scope_is_persistable("organization hierarchy"));
    assert!(!relationship_scope_is_persistable("friendship"));
}

#[test]
fn names_resolve_to_one_identity() {
    let identities = vec![identity("Hàn Lập", &["Lập Ca"]), identity("Tam Thúc", &[])];
    assert_eq!(resolve_relationship_identity_index(&identities, "lập ca"), Some(0));
    assert_eq!(resolve_relationship_identity_index(&identities, "Tam Thúc"), Some(1));
    assert_eq!(resolve_relationship_identity_index(&identities, "Người Lạ"), None);
    assert_eq!(resolve_relationship_identity_index(&identities, "  "), None);
    let twice = vec![identity("Hàn Lập", &[]), identity("Hàn Lập", &[])];
    assert_eq!(resolve_relationship_identity_index(&twice, "Hàn Lập"), None);
}

#[test]
fn quotes_ground_candidates() {
    assert!(chapter_text_contains_evidence_quote("Hàn Lập  đi\nchợ", " Lập đi chợ "));
    assert!(chapter_text_contains_evidence_quote("Hàn Lập đi chợ", "Lập"));
    assert!(!chapter_text_contains_evidence_quote("Hàn Lập đi chợ", "  "));
    assert!(!chapter_text_contains_evidence_quote("Hàn Lập đi chợ", "Tam"));

    let candidate = CharacterRelationshipCandidate {
        source_name: "Hàn Lập".to_string(),
        target_name: "Tam Thúc".to_string(),
        relationship_kind: "relation".to_string(),
        relationship_type: String::new(),
        source_to_target_label: " Uncle ".to_string(),
        target_to_source_label: String::new(),
        evidence: vec![quote(Some(" đi chợ ")), quote(Some("  ")), quote(None)],
    };
    assert!(relationship_candidate_has_grounded_evidence(&candidate, &chapter("Hàn Lập đi chợ")));
    assert!(!relationship_candidate_has_grounded_evidence(&candidate, &chapter("Tam Thúc ngủ")));

    let (left, right, pair) = relationship_candidate_to_pair_extraction(candidate, 3, 1, 2);
    assert_eq!((left, right), (1, 3));
    assert_eq!(pair.relationship_type, "uncle");
    assert_eq!(pair.a_to_b_label, "Uncle");
    assert_eq!(pair.b_to_a_label, "Uncle");
    assert_eq!(pair.evidence.len(), 1);
    assert_eq!(pair.evidence[0].chapter_num, 2);
    assert_eq!(pair.evidence[0].start_char, None);
    assert_eq!(pair.evidence[0].quote.as_deref(), Some("đi chợ"));
}

#[test]
fn relationships_normalize_and_become_a_record() {
    let relationships = normalize_character_relationships(vec![
        extraction("Kinship", " uncle ", "nephew", &[Some("q")]),
        extraction("kinship", "Uncle", " nephew", &[Some("other")]),
        extraction("kinship", "uncle", "", &[Some("q")]),
        extraction("kinship", "aunt", "niece", &[Some("  "), None]),
        extraction("ally", "friend", "friend", &[Some("q")]),
    ]);
    assert_eq!(relationships.len(), 2);
    assert_eq!(relationships[0].relationship_type, "kinship");
    assert_eq!(relationships[0].a_to_b_label, "uncle");
    assert_eq!(relationships[0].evidence[0].start_char, None);
    assert_eq!(relationships[1].relationship_type, "ally");

    let a = identity("Hàn Lập", &[]);
    let b = identity("Tam Thúc", &[]);
    let record = relationship_pair_to_record(&a, &b, relationships).unwrap();
    assert_eq!(record.group_key, "relationship");
    assert_eq!(record.group_label, "Quan Hệ");
    assert_eq!(record.entity_key.as_deref(), Some("relationship|han_lap|tam_thuc"));
    assert_eq!(record.display_name, "Hàn Lập ↔ Tam Thúc");
    assert_eq!(record.fields[0].field_label, "Quan hệ");
    let values = &record.fields[0].values;
    assert_eq!(values.len(), 4);
    assert_eq!(values[0].value, "uncle");
    assert_eq!(values[0].related_character.as_deref(), Some("Tam Thúc"));
    assert_eq!(values[1].value, "nephew");
    assert_eq!(values[1].related_character.as_deref(), Some("Hàn Lập"));
    assert_eq!(values[1].relationship_direction.as_deref(), Some("self_to_related"));
    assert!(relationship_pair_to_record(&a, &b, Vec::new()).is_none());
}

#[test]
fn sentences_around_quotes() {
    let text = "Một. Hai ba. Bốn";
    assert_eq!(sentence_start_before(text, 7), 4);
    assert_eq!(sentence_start_before(text, -3), 0);
    assert_eq!(sentence_end_after(text, 5), 12);
    assert_eq!(sentence_end_after(text, 99), 16);
    assert_eq!(slice_text_by_char_range("Hàn Lập", 1, 3), "àn");
    assert_eq!(slice_text_by_char_range("Hàn Lập", -5, 2), "Hà");
    assert_eq!(slice_text_by_char_range("Hàn Lập", 5, 2), "");
    assert_eq!(slice_text_by_char_range("Hàn Lập", 3, 100), " Lập");
}

#[test]
fn names_and_nearest_identity_in_text() {
    let identities = vec![
        identity("Hàn Lập", &[]),
        identity("Tam Thúc", &[]),
        identity("hàn lập", &[]),
    ];
    assert_eq!(
        identity_names_in_text(&identities, "Hàn Lập gặp Tam Thúc"),
        vec!["Hàn Lập".to_string(), "Tam Thúc".to_string()]
    );
    assert_eq!(
        nearest_identity_before_alias_quote(&identities, "Tam Thúc gặp Hàn Lập rồi nói"),
        Some(0)
    );
    assert_eq!(
        nearest_identity_before_alias_quote(&identities, "Hàn Lập gặp Tam Thúc"),
        Some(1)
    );
    assert_eq!(nearest_identity_before_alias_quote(&identities, "không ai"), None);

    let contexts = quoted_alias_candidate_context(
        &vec![identity("Hàn Lập", &[])],
        "Hàn Lập được gọi là \"Lập Ca\". Khác \"Người Lạ\".",
    );
    assert_eq!(contexts.len(), 1);
    assert_eq!(contexts[0].surface, "Lập Ca");
    assert_eq!(contexts[0].context, "Hàn Lập được gọi là \"Lập Ca\".");
    assert_eq!(contexts[0].nearby_identity_names, vec!["Hàn Lập".to_string()]);
    assert_eq!(contexts[0].nearest_identity_before_quote.as_deref(), Some("Hàn Lập"));
}

#[test]
fn ownership_evidence_rules() {
    let moved = normalize_alias_ownership_evidence(vec![quote(Some("q"))], 4);
    assert_eq!(moved[0].chapter_num, 4);
    assert_eq!(moved[0].start_char, None);
    assert_eq!(moved[0].quote.as_deref(), Some("q"));

    let evidence = vec![quote(Some("Gọi hắn là Lập Ca đi"))];
    assert!(alias_evidence_mentions_surface(&evidence, "lập ca"));
    assert!(!alias_evidence_mentions_surface(&evidence, "Tam"));
    assert!(!alias_evidence_mentions_surface(&evidence, "!!"));

    assert_eq!(distinctive_surface_tokens("Hàn Lập A"), vec!["han".to_string(), "lap".to_string()]);
    assert!(character_surfaces_share_distinctive_token("Lập Ca", "Hàn Lập"));
    assert!(!character_surfaces_share_distinctive_token("A B", "Hàn"));

    let identities = vec![identity("Hàn Lập", &["Lập Ca"]), identity("Tam Thúc", &[])];
    assert_eq!(find_character_identity_index_by_surface(&identities, "lập ca"), Some(0));
    assert_eq!(find_character_identity_index_by_surface(&identities, "Tam thúc"), Some(1));
    assert_eq!(find_character_identity_index_by_surface(&identities, "x"), None);
    assert_eq!(find_character_identity_index_by_surface(&identities, ""), None);

    assert!(alias_ownership_can_be_applied(
        &identities,
        0,
        "Lập Ca",
        &vec![quote(Some("Hàn Lập tức Lập Ca"))]
    ));
    assert!(!alias_ownership_can_be_applied(&identities, 0, "Lập Ca", &Vec::new()));
    assert!(alias_ownership_can_be_applied(&identities, 0, "Lập Ca", &vec![quote(Some("Lập Ca đến"))]));
    assert!(!alias_ownership_can_be_applied(&identities, 1, "Đại Ca", &vec![quote(Some("Đại Ca đến"))]));
}

fn occurrence(start: i64, end: i64) -> ScannedCharacterOccurrence {
    ScannedCharacterOccurrence {
        text: String::new(),
        start_char: start,
        end_char: end,
        mention_type: "name".to_string(),
        ambiguous: false,
    }
}

fn field_value(value: &str, quotes: &[Option<&str>]) -> StoryExtractionFieldValuePayload {
    StoryExtractionFieldValuePayload {
        value: value.to_string(),
        related_character: None,
        relationship_type: None,
        relationship_label: None,
        relationship_direction: None,
        evidence: quotes.iter().map(|q| quote(*q)).collect(),
    }
}

#[test]
fn field_sentences_and_markers() {
    assert_eq!(
        split_character_field_sentences("Hàn Lập cao. Hắn gầy!\n  "),
        vec!["Hàn Lập cao.".to_string(), "Hắn gầy!".to_string()]
    );
    assert_eq!(
        insert_character_field_markers("Hàn Lập cao", &vec![occurrence(0, 7)]),
        "[[Hàn Lập]] cao"
    );
    let hero = identity("Hàn Lập", &[]);
    assert_eq!(
        mark_character_field_context("Hàn Lập rất cao.", &hero).as_deref(),
        Some("[[Hàn Lập]] rất cao.")
    );
    assert_eq!(mark_character_field_context("Trời mưa.", &hero), None);
    assert_eq!(
        build_character_field_contexts("Hàn Lập cao. Trời mưa. Hàn Lập cao.", &hero),
        vec!["[[Hàn Lập]] cao.".to_string()]
    );
}

#[test]
fn field_value_rules() {
    assert!(field_value_semantic_class_is_allowed("Physical Appearance"));
    assert!(!field_value_semantic_class_is_allowed("personality"));
    assert_eq!(normalize_character_minimal_field("Appearance"), Some(("appearance", "Ngoại hình")));
    assert_eq!(normalize_character_minimal_field("status"), None);
    assert_eq!(
        character_identity_value_keys(&identity("Hàn Lập", &["Lập Ca", "!!"])),
        vec!["hàn_lập".to_string(), "lập_ca".to_string()]
    );

    let marked = field_value("cao gầy", &[Some(" [[Hàn Lập]] cao và gầy ")]);
    assert!(field_value_has_quoted_evidence(&marked));
    assert!(field_value_has_target_marker(&marked));
    assert!(!field_value_has_target_marker(&field_value("cao", &[Some("[[Hàn Lập cao")])));
    assert!(!field_value_has_quoted_evidence(&field_value("cao", &[Some(" "), None])));
    assert!(field_value_is_grounded_in_quoted_evidence(&marked));
    assert!(!field_value_is_grounded_in_quoted_evidence(&field_value("rất cao", &[Some("cao và gầy")])));
    assert!(field_value_is_grounded_in_quoted_evidence(&field_value(
        "aa bb cc dd ee",
        &[Some("aa bb cc xx")]
    )));
    assert!(!field_value_is_grounded_in_quoted_evidence(&field_value(
        "aa bb cc dd ee",
        &[Some("aa bb xx")]
    )));
    assert_eq!(
        normalized_field_value_tokens("Cao cao gầy"),
        vec!["cao".to_string(), "gay".to_string()]
    );

    let mut stripped = marked.clone();
    strip_character_field_markers_from_evidence(&mut stripped);
    assert_eq!(stripped.evidence[0].quote.as_deref(), Some(" Hàn Lập cao và gầy "));

    let hero = identity("Hàn Lập", &["Lập Ca"]);
    assert!(field_value_verification_owner_matches_identity(&hero, &Some("lập ca".to_string())));
    assert!(!field_value_verification_owner_matches_identity(&hero, &Some("Tam".to_string())));
    assert!(field_value_verification_owner_matches_identity(&hero, &None));
    assert!(field_value_verification_owner_matches_identity(&hero, &Some("  ".to_string())));
}
