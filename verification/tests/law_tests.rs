use novelgraph::keys::{is_ascii_snake_key, normalize_ascii_snake_key};
use novelgraph::llm_json::escape_control_chars_inside_json_strings;
use novelgraph::occurrences::{select_non_overlapping_occurrences, ScannedCharacterOccurrence};
use novelgraph::records::one_edit_distance_or_less;
use novelgraph::resolution::levenshtein_distance;

fn chars(value: &str) -> Vec<char> {
    value.chars().collect()
}

#[test]
fn snake_keys_are_well_formed_and_stable() {
    for value in ["Ngoại hình", "already_snake", "123 tuổi", "   ", "Đạo Hữu", "__x__y__", "  trimmed_key  ", "A-B--C"] {
        let key = normalize_ascii_snake_key(value);
        assert!(is_ascii_snake_key(&key), "{value:?} gave {key:?}");
        assert_eq!(normalize_ascii_snake_key(&key), key);
    }
    assert_eq!(normalize_ascii_snake_key("  trimmed_key  "), "trimmed_key");
    assert_eq!(normalize_ascii_snake_key("__x__y__"), "x_y");
}

#[test]
fn escaping_twice_changes_nothing() {
    let raw = "{\"a\": \"x\ny\t\u{1}z\", \"b\": \"q\\\"\r\"}\n";
    let once = escape_control_chars_inside_json_strings(raw);
    assert_eq!(once, "{\"a\": \"x\\ny\\t\\u0001z\", \"b\": \"q\\\"\\r\"}\n");
    assert_eq!(escape_control_chars_inside_json_strings(&once), once);
    let plain = "no strings here\n\tat all";
    assert_eq!(escape_control_chars_inside_json_strings(plain), plain);
}

#[test]
fn one_edit_apart_is_distance_at_most_one() {
    let pairs = [
        ("han_lap", "han_lap"),
        ("han_lap", "han_lop"),
        ("anh_ngo", "anh_ngoc"),
        ("abc", "xabc"),
        ("abc", "xyz"),
        ("abc", "abcde"),
        ("abcd", "xabd"),
        ("", "a"),
        ("", "ab"),
    ];
    for (left, right) in pairs {
        let close = levenshtein_distance(&chars(left), &chars(right)) <= 1;
        assert_eq!(one_edit_distance_or_less(left, right), close, "{left:?} {right:?}");
        assert_eq!(one_edit_distance_or_less(right, left), close, "{right:?} {left:?}");
    }
}

fn occurrence(text: &str, start: i64, end: i64) -> ScannedCharacterOccurrence {
    ScannedCharacterOccurrence {
        text: text.to_string(),
        start_char: start,
        end_char: end,
        mention_type: "name".to_string(),
        ambiguous: false,
    }
}

#[test]
fn kept_occurrences_are_in_text_order_and_each_dropped_one_overlaps_a_kept_one() {
    let occurrences = vec![
        occurrence("Lập", 24, 27),
        occurrence("Hàn", 10, 13),
        occurrence("Hàn Lập", 20, 27),
        occurrence("Lập", 14, 17),
        occurrence("Hàn Lập", 10, 17),
        occurrence("Hàn", 0, 3),
    ];
    let kept = select_non_overlapping_occurrences(occurrences.clone());
    let ranges: Vec<(i64, i64)> = kept.iter().map(|o| (o.start_char, o.end_char)).collect();
    assert_eq!(ranges, vec![(0, 3), (10, 17), (20, 27)]);
    for o in &occurrences {
        let is_kept = ranges.contains(&(o.start_char, o.end_char));
        let overlaps_kept = ranges.iter().any(|&(s, e)| s < o.end_char && o.start_char < e);
        assert!(is_kept || overlaps_kept);
    }
}

use novelgraph::cloud_extraction::{build_story_chapter_cloud_extraction_prompt, CloudChapterExtractionInput};

#[test]
fn blank_or_padded_prompt_fields_give_the_default_prompt() {
    let blank = CloudChapterExtractionInput {
        chapter_num: 3,
        title: None,
        source_language: Some("   ".to_string()),
        chapter_text: "Text.".to_string(),
        novel_context: Some("\n\t".to_string()),
        known_alias_surfaces_json: None,
        known_relationships_json: Some(String::new()),
    };
    let defaults = CloudChapterExtractionInput {
        chapter_num: 3,
        title: Some("Untitled chapter".to_string()),
        source_language: Some("unknown".to_string()),
        chapter_text: "Text.".to_string(),
        novel_context: Some("No novel context provided.".to_string()),
        known_alias_surfaces_json: Some("[]".to_string()),
        known_relationships_json: Some("[]".to_string()),
    };
    let padded = CloudChapterExtractionInput {
        chapter_num: 3,
        title: Some("  Untitled chapter  ".to_string()),
        source_language: Some("  unknown  ".to_string()),
        chapter_text: "Text.".to_string(),
        novel_context: Some("  No novel context provided.  ".to_string()),
        known_alias_surfaces_json: Some("  []  ".to_string()),
        known_relationships_json: Some("  []  ".to_string()),
    };
    let a = build_story_chapter_cloud_extraction_prompt(&blank);
    let b = build_story_chapter_cloud_extraction_prompt(&defaults);
    let c = build_story_chapter_cloud_extraction_prompt(&padded);
    assert_eq!(a.user_prompt, b.user_prompt);
    assert_eq!(b.user_prompt, c.user_prompt);
    assert!(b.user_prompt.contains("Chapter title: Untitled chapter"));
}

use novelgraph::byok::{key_from_passphrase, open_secret, seal_secret, secret_key_source, SecretKeySource};
use novelgraph::config::{AppConfig, ConfigSettings};

#[test]
fn a_configured_passphrase_seals_keys_that_open_again() {
    let settings = ConfigSettings {
        app_mode: None,
        host: None,
        port: None,
        database_url: None,
        sqlite_database_path: None,
        secrets_key_path: None,
        llama_cpp_timeout_secs: None,
        gemini_timeout_secs: None,
        llama_cpp_base_url: None,
        llama_cpp_default_model: None,
        llama_cpp_server_bin: None,
        gemini_base_url: None,
        secrets_encryption_key: Some("  passphrase  ".to_string()),
    };
    let config = AppConfig::from_settings(&settings, "llama-server").unwrap();
    let key = match secret_key_source(&config) {
        SecretKeySource::Passphrase(key) => key,
        SecretKeySource::KeyFile(path) => panic!("expected the passphrase, got the key file {path}"),
    };
    assert_eq!(key, key_from_passphrase("passphrase"));
    for secret in ["sk-live-123", "", "khóa bí mật"] {
        let sealed = seal_secret(&key, secret).unwrap();
        assert!(sealed.starts_with("ngenc:v1:"));
        assert_eq!(sealed.split(':').count(), 4);
        assert_eq!(open_secret(&key, &sealed).unwrap(), secret);
    }
    let mut without = settings.clone();
    without.secrets_encryption_key = None;
    let config = AppConfig::from_settings(&without, "llama-server").unwrap();
    assert!(matches!(secret_key_source(&config), SecretKeySource::KeyFile(path) if path == "data/secrets/byok.key"));
}
