use novelgraph::characters::{CharacterAlias, CharacterIdentity};
use novelgraph::records::{StoryExtractionDocument, StoryExtractionRecordPayload};
use novelgraph::relationships::StoryExtractionRecordView;
use novelgraph::resolution::{
    character_identity_any_surface_appears, character_resolution_surface_items,
    character_resolution_token_count,
    is_strong_character_resolution_key, known_character_name_keys, levenshtein_distance,
    merge_character_identity_into_list, merge_observed_identity_aliases,
    normalize_character_identity_creation_action, normalize_character_identity_merge_action,
    observed_identity_contains_candidate_surface, observed_identity_is_known_name_phrase,
    sanitize_new_character_identity, find_exact_db_character_record, find_exact_working_character_record,
};

fn chars(s: &str) -> Vec<char> {
    s.chars().collect()
}

fn alias(text: &str, alias_type: &str) -> CharacterAlias {
    CharacterAlias {
        text: text.to_string(),
        alias_type: alias_type.to_string(),
        alias_label: String::new(),
        is_primary: false,
        evidence: Vec::new(),
    }
}

fn identity(name: &str, aliases: Vec<CharacterAlias>) -> CharacterIdentity {
    CharacterIdentity {
        name: name.to_string(),
        aliases,
    }
}

fn view_record(display_name: &str) -> StoryExtractionRecordView {
    StoryExtractionRecordView {
        id: "record".to_string(),
        project_id: "project".to_string(),
        novel_id: "novel".to_string(),
        chapter_id: "chapter".to_string(),
        job_id: "job".to_string(),
        run_id: "run".to_string(),
        chapter_num: 1,
        group_key: "character".to_string(),
        group_label: "Nhân Vật".to_string(),
        entity_key: None,
        display_name: display_name.to_string(),
        prompt_schema_version: "v".to_string(),
        mentions: Vec::new(),
        fields: Vec::new(),
        created_at: String::new(),
        updated_at: String::new(),
    }
}

fn payload_record(group_key: &str, display_name: &str) -> StoryExtractionRecordPayload {
    StoryExtractionRecordPayload {
        group_key: group_key.to_string(),
        group_label: "label".to_string(),
        entity_key: None,
        display_name: display_name.to_string(),
        mentions: Vec::new(),
        fields: Vec::new(),
    }
}

fn document(records: Vec<StoryExtractionRecordPayload>) -> StoryExtractionDocument {
    StoryExtractionDocument {
        schema_version: "story_character_extraction.v1".to_string(),
        chapter_num: 2,
        records,
    }
}

fn texts(aliases: &[CharacterAlias]) -> Vec<&str> {
    aliases.iter().map(|alias| alias.text.as_str()).collect()
}

#[test]
fn edit_distance_of_names() {
    assert_eq!(levenshtein_distance(&chars("kitten"), &chars("sitting")), 3);
    assert_eq!(levenshtein_distance(&chars("Hàn Lập"), &chars("Hàn Lập")), 0);
    assert_eq!(levenshtein_distance(&chars(""), &chars("abc")), 3);
    assert_eq!(levenshtein_distance(&chars("abc"), &chars("")), 3);
    assert_eq!(levenshtein_distance(&chars("Lập"), &chars("Lap")), 1);
    assert_eq!(
        levenshtein_distance(&chars("flaw"), &chars("lawn")),
        levenshtein_distance(&chars("lawn"), &chars("flaw"))
    );
}

#[test]
fn strong_resolution_keys() {
    assert_eq!(character_resolution_token_count("_han__lap_"), 2);
    assert_eq!(character_resolution_token_count(""), 0);
    assert!(is_strong_character_resolution_key("han_lap"));
    assert!(is_strong_character_resolution_key("ab_cd"));
    assert!(is_strong_character_resolution_key("abcdef"));
    assert!(!is_strong_character_resolution_key("abcde"));
    assert!(!is_strong_character_resolution_key("a_b_c"));
}

#[test]
fn decision_actions() {
    assert_eq!(normalize_character_identity_merge_action("Merge Existing"), "merge_existing");
    assert_eq!(normalize_character_identity_merge_action("merge"), "merge_existing");
    assert_eq!(normalize_character_identity_merge_action("skip"), "ignore");
    assert_eq!(normalize_character_identity_merge_action("reject"), "create_new");
    assert_eq!(normalize_character_identity_creation_action("ignore"), "reject");
    assert_eq!(normalize_character_identity_creation_action("merge_into_existing"), "merge_existing");
    assert_eq!(normalize_character_identity_creation_action("new"), "create_new");
}

#[test]
fn known_name_keys_and_phrases() {
    let db = vec![view_record("Hàn Lập"), view_record("  ")];
    let working = document(vec![
        payload_record("character", "Tam Thúc"),
        payload_record("relationship", "Mặc Đại Phu"),
    ]);
    let keys = known_character_name_keys(&db, &working);
    assert_eq!(keys, vec!["hàn_lập", "tam_thúc", "mặc_đại_phu"]);

    let phrase = |name: &str| {
        observed_identity_is_known_name_phrase(&identity(name, Vec::new()), &db, &working)
    };
    assert!(phrase("Hàn Lập ca ca"));
    assert!(phrase("Lão Hàn Lập"));
    assert!(phrase("Tam Thúc Tổ"));
    assert!(!phrase("Hàn Lập"));
    assert!(!phrase("Mặc Đại Phu Nhân"));
    assert!(!phrase(""));
}

#[test]
fn observed_aliases_join_known_identity() {
    let known = vec!["hàn_lập".to_string(), "tam_thúc".to_string()];
    let mut target = identity("Hàn Lập", Vec::new());
    let observed = identity(
        "Tiểu Lập",
        vec![alias("Lập Ca", "nickname"), alias("Tam Thúc", "other_alias")],
    );
    merge_observed_identity_aliases(&mut target, Some(&observed), &known);
    assert_eq!(target.name, "Hàn Lập");
    assert_eq!(texts(&target.aliases), vec!["Tiểu Lập", "Lập Ca"]);
    assert_eq!(target.aliases[0].alias_type, "other_alias");
    assert_eq!(target.aliases[0].alias_label, "Tên gọi khác");

    let mut unchanged = identity("Hàn Lập", Vec::new());
    merge_observed_identity_aliases(&mut unchanged, None, &known);
    assert!(unchanged.aliases.is_empty());

    let mut same = identity("Hàn Lập", Vec::new());
    merge_observed_identity_aliases(&mut same, Some(&identity("Tam Thúc", Vec::new())), &known);
    assert!(same.aliases.is_empty());
}

#[test]
fn new_identity_drops_other_known_names() {
    let db = vec![view_record("Hàn Lập")];
    let working = document(Vec::new());
    let sanitized = sanitize_new_character_identity(
        identity(
            "Tiểu Lập",
            vec![
                alias("Hàn Lập", "other_alias"),
                alias("Lập Ca", "nickname"),
                alias("Đại Sư", "title"),
            ],
        ),
        &db,
        &working,
    );
    assert_eq!(sanitized.name, "Tiểu Lập");
    assert_eq!(texts(&sanitized.aliases), vec!["Lập Ca"]);
}

#[test]
fn identities_merge_by_name_key() {
    let mut identities = vec![identity("Hàn Lập", Vec::new())];
    merge_character_identity_into_list(
        &mut identities,
        identity("hàn lập", vec![alias("Lập Ca", "nickname")]),
    );
    assert_eq!(identities.len(), 1);
    assert_eq!(identities[0].name, "Hàn Lập");
    assert_eq!(texts(&identities[0].aliases), vec!["Lập Ca"]);

    merge_character_identity_into_list(&mut identities, identity("Tam Thúc", Vec::new()));
    assert_eq!(identities.len(), 2);
    assert_eq!(identities[1].name, "Tam Thúc");
}

#[test]
fn candidate_surfaces_inside_observed_names() {
    let candidate = identity("Hàn Lập", vec![alias("Lập Ca", "nickname")]);
    assert!(observed_identity_contains_candidate_surface(
        &identity("Tam Thúc Hàn Lập", Vec::new()),
        &candidate
    ));
    assert!(observed_identity_contains_candidate_surface(
        &identity("Lập Ca Ca", Vec::new()),
        &candidate
    ));
    assert!(!observed_identity_contains_candidate_surface(
        &identity("Hàn Lập", Vec::new()),
        &candidate
    ));
    assert!(character_identity_any_surface_appears(
        &candidate,
        "Hôm nay Hàn Lập đi chợ."
    ));
    assert!(!character_identity_any_surface_appears(&candidate, "Không có ai."));
}

#[test]
fn resolution_surfaces_keep_strong_keys_once() {
    let person = identity(
        "Hàn Lập",
        vec![
            alias("Lập ca", "other_alias"),
            alias("Hàn lập", "nickname"),
            alias("Tam", "nickname"),
            alias("Hàn Thúc", "title"),
        ],
    );
    let surfaces = character_resolution_surface_items(&person);
    let seen: Vec<(&str, &str, bool, bool)> = surfaces
        .iter()
        .map(|s| (s.text.as_str(), s.key.as_str(), s.is_canonical, s.is_alias))
        .collect();
    assert_eq!(seen, vec![("Hàn Lập", "han_lap", true, false), ("Lập ca", "lap_ca", false, true)]);
}

#[test]
fn exact_name_lookups_find_the_first_record_with_the_name_key() {
    let id = identity("  Hàn  Lập ", Vec::new());
    let db = vec![view_record("Tam Thúc"), view_record("hàn lập"), view_record("Hàn Lập")];
    assert_eq!(find_exact_db_character_record(&id, &db), Some(1));
    assert_eq!(find_exact_db_character_record(&identity("Mặc Đại Phu", Vec::new()), &db), None);
    let doc = document(vec![payload_record("character", "Lập"), payload_record("character", "Hàn-Lập")]);
    assert_eq!(find_exact_working_character_record(&id, &doc), Some(1));
    assert_eq!(find_exact_working_character_record(&identity("Lập ca", Vec::new()), &doc), None);
}
