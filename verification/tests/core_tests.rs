use novelgraph::cloud_extraction::{
    build_story_chapter_cloud_extraction_prompt, build_structured_json_repair_prompt,
    CloudChapterExtractionInput,
};
use novelgraph::config::{parse_unsigned_decimal, AppConfig, AppError, AppMode, ConfigSettings, ParseIntKind};
use novelgraph::extraction::{
    build_draft_extraction_prompt, DraftExtractionInput, DRAFT_EXTRACTION_SCHEMA_VERSION,
};
use novelgraph::import::{split_chapters, split_source_segments};
use novelgraph::jobs::{validate_transition, JobStatus, JobTransitionError};
use novelgraph::version::{API_VERSION, APP_VERSION, RELEASE_CHANNEL, STORAGE_SCHEMA_VERSION};

#[test]
fn allows_expected_state_transitions() {
    assert!(validate_transition(JobStatus::Pending, JobStatus::Running).is_ok());
    assert!(validate_transition(JobStatus::Pending, JobStatus::Cancelled).is_ok());
    assert!(validate_transition(JobStatus::Running, JobStatus::Completed).is_ok());
    assert!(validate_transition(JobStatus::Running, JobStatus::Failed).is_ok());
    assert!(validate_transition(JobStatus::Running, JobStatus::Cancelled).is_ok());
    assert!(validate_transition(JobStatus::Failed, JobStatus::Pending).is_ok());
}

#[test]
fn rejects_terminal_state_mutation() {
    assert_eq!(
        validate_transition(JobStatus::Completed, JobStatus::Cancelled),
        Err(JobTransitionError::InvalidTransition {
            from: "completed",
            to: "cancelled"
        })
    );
    assert_eq!(
        validate_transition(JobStatus::Cancelled, JobStatus::Running),
        Err(JobTransitionError::InvalidTransition {
            from: "cancelled",
            to: "running"
        })
    );
}

#[test]
fn parses_app_modes() {
    assert_eq!(AppMode::parse("web").unwrap(), AppMode::Web);
    assert_eq!(AppMode::parse("desktop").unwrap(), AppMode::Desktop);
    assert_eq!(AppMode::parse("demo").unwrap(), AppMode::Demo);
    assert!(AppMode::parse("invalid").is_err());
}

#[test]
fn version_constants_are_populated() {
    assert!(!APP_VERSION.is_empty());
    assert!(API_VERSION.starts_with('v'));
    assert!(!RELEASE_CHANNEL.is_empty());
    assert!(!STORAGE_SCHEMA_VERSION.is_empty());
}

#[test]
fn splits_vietnamese_chapter_headings() {
    let source = "Lời mở đầu\n\nChương 1\nMột khởi đầu.\n\nChương 2\nTiếp tục.";
    let chapters = split_chapters(source);

    assert_eq!(chapters.len(), 3);
    assert_eq!(chapters[0].title, "Preface");
    assert_eq!(chapters[1].title, "Chương 1");
    assert_eq!(chapters[2].title, "Chương 2");
}

#[test]
fn splits_english_chinese_and_markdown_headings() {
    let english = split_chapters("Chapter 1\nStart.\n\nChapter 2\nContinue.");
    let chinese = split_chapters("第1章 初见\n开始。\n\n第2章 再会\n继续。");
    let markdown = split_chapters("# Opening\nStart.\n\n## Second Part\nContinue.");

    assert_eq!(english.len(), 2);
    assert_eq!(chinese.len(), 2);
    assert_eq!(markdown.len(), 2);
    assert_eq!(markdown[0].title, "Opening");
    assert_eq!(markdown[1].title, "Second Part");
}

#[test]
fn falls_back_to_single_chapter_without_headings() {
    let chapters = split_chapters("Một đoạn truyện không có tiêu đề chương.");

    assert_eq!(chapters.len(), 1);
    assert_eq!(chapters[0].title, "Chapter 1");
}

#[test]
fn splits_source_segments_by_blank_lines() {
    let segments = split_source_segments("Chương 1\nDòng một.\n\nDòng hai.");

    assert_eq!(segments.len(), 2);
    assert_eq!(segments[0].segment_index, 1);
    assert_eq!(segments[1].segment_index, 2);
}

#[test]
fn builds_prompt_with_schema_and_current_chapter_boundary() {
    let prompt = build_draft_extraction_prompt(&DraftExtractionInput {
        chapter_num: 3,
        title: Some("Gặp lại".to_string()),
        source_language: Some("vi".to_string()),
        text: "Nhân vật bước vào thung lũng.".to_string(),
        prior_context: None,
    });

    assert_eq!(prompt.schema_version, DRAFT_EXTRACTION_SCHEMA_VERSION);
    assert!(prompt.user_prompt.contains("Chapter number: 3"));
    assert!(prompt.user_prompt.contains("<<<CHAPTER_TEXT"));
    assert!(prompt.user_prompt.contains("\"review_items\""));
}

#[test]
fn builds_versioned_cloud_prompt_from_registry_templates() {
    let prompt = build_story_chapter_cloud_extraction_prompt(&CloudChapterExtractionInput {
        chapter_num: 1,
        title: Some("Chương 1".to_string()),
        source_language: Some("vi".to_string()),
        chapter_text: "Hàn Lập gặp tam thúc.".to_string(),
        novel_context: Some("Novel: Phàm Nhân Tu Tiên".to_string()),
        known_alias_surfaces_json: Some("[]".to_string()),
        known_relationships_json: Some("[]".to_string()),
    });

    assert_eq!(prompt.schema_version, "story_chapter_cloud_extraction.v2");
    assert_eq!(prompt.call_profile, "cloud_gemini_one_shot");
    assert!(prompt.user_prompt.contains("Chapter number: 1"));
    assert!(prompt.user_prompt.contains("Known character surfaces"));
    assert!(prompt.user_prompt.contains("Known stable relationships"));
    assert!(prompt
        .user_prompt
        .contains("Field value is a compact display label"));
    assert!(prompt.response_schema_json.contains("\"relationships\""));
}

#[test]
fn builds_structured_json_repair_prompt_from_registry_template() {
    let prompt =
        build_structured_json_repair_prompt("schema.v1", "{\"type\":\"OBJECT\"}", "{bad");

    assert_eq!(prompt.template_version, "structured_json_repair.v1");
    assert!(prompt
        .system_prompt
        .contains("Repair invalid JSON object output"));
    assert!(prompt.user_prompt.contains("schema.v1"));
    assert!(prompt.user_prompt.contains("{bad"));
}

fn settings() -> ConfigSettings {
    ConfigSettings {
        app_mode: None,
        host: None,
        port: None,
        database_url: None,
        sqlite_database_path: None,
        secrets_key_path: None,
        llama_cpp_timeout_secs: None,
        gemini_timeout_secs: None,
        llama_cpp_base_url: None,
        llama_cpp_default_model: None,
        llama_cpp_server_bin: None,
        gemini_base_url: None,
        secrets_encryption_key: None,
    }
}

fn config_error(settings: &ConfigSettings) -> String {
    match AppConfig::from_settings(settings, "llama-server") {
        Err(AppError::InvalidConfig(message)) => message,
        Ok(_) => panic!("expected a configuration error"),
    }
}

#[test]
fn unsigned_settings_parse_like_std() {
    assert_eq!(parse_unsigned_decimal("3000", 65535), Ok(3000));
    assert_eq!(parse_unsigned_decimal("+80", 65535), Ok(80));
    assert_eq!(parse_unsigned_decimal("65535", 65535), Ok(65535));
    assert_eq!(parse_unsigned_decimal("", 65535), Err(ParseIntKind::Empty));
    assert_eq!(parse_unsigned_decimal("+", 65535), Err(ParseIntKind::InvalidDigit));
    assert_eq!(parse_unsigned_decimal("-1", 65535), Err(ParseIntKind::InvalidDigit));
    assert_eq!(parse_unsigned_decimal(" 80", 65535), Err(ParseIntKind::InvalidDigit));
    assert_eq!(parse_unsigned_decimal("65536", 65535), Err(ParseIntKind::PosOverflow));
    assert_eq!(parse_unsigned_decimal("99999x", 65535), Err(ParseIntKind::PosOverflow));
    assert_eq!(parse_unsigned_decimal("6553x", 65535), Err(ParseIntKind::InvalidDigit));
    assert_eq!(parse_unsigned_decimal("18446744073709551615", u64::MAX), Ok(u64::MAX));
    assert_eq!(parse_unsigned_decimal("18446744073709551616", u64::MAX), Err(ParseIntKind::PosOverflow));
    for n in [0u64, 7, 10, 99, 65535, 1 << 40, u64::MAX] {
        assert_eq!(parse_unsigned_decimal(&n.to_string(), u64::MAX), Ok(n));
    }
    for text in ["7", "+12", "", "+", "x1", "65536", "1 "] {
        let expected = text.parse::<u16>().map(u64::from).map_err(|e| e.to_string());
        let got = parse_unsigned_decimal(text, 65535).map_err(|k| k.message().to_string());
        assert_eq!(got, expected, "{text:?}");
    }
}

#[test]
fn config_defaults_and_overrides() {
    let config = AppConfig::from_settings(&settings(), "llama-server").unwrap();
    assert_eq!(config.mode, AppMode::Web);
    assert_eq!(config.bind_addr(), "127.0.0.1:3000");
    assert_eq!(config.database_url, None);
    assert_eq!(config.sqlite_database_path.as_deref(), Some("data/novelgraph.sqlite3"));
    assert_eq!(config.secrets_key_path, "data/secrets/byok.key");
    assert_eq!(config.llama_cpp_base_url, "http://127.0.0.1:8080");
    assert_eq!(config.llama_cpp_default_model, "qwen3");
    assert_eq!(config.llama_cpp_server_bin, "llama-server");
    assert_eq!(config.llama_cpp_timeout_secs, 120);
    assert_eq!(config.gemini_timeout_secs, 120);
    assert_eq!(config.secrets_encryption_key, None);

    let mut custom = settings();
    custom.app_mode = Some(" Desktop ".to_string());
    custom.port = Some("+8080".to_string());
    custom.database_url = Some("sqlite:other.db".to_string());
    custom.secrets_encryption_key = Some("  key  ".to_string());
    custom.gemini_timeout_secs = Some("30".to_string());
    let config = AppConfig::from_settings(&custom, "llama-server").unwrap();
    assert_eq!(config.mode, AppMode::Desktop);
    assert_eq!(config.port, 8080);
    assert_eq!(config.sqlite_database_path, None);
    assert_eq!(config.secrets_key_path, "data/secrets/byok.key");
    assert_eq!(config.secrets_encryption_key.as_deref(), Some("key"));
    assert_eq!(config.gemini_timeout_secs, 30);

    let mut placed = settings();
    placed.sqlite_database_path = Some("/var/lib/ng/db.sqlite3".to_string());
    let config = AppConfig::from_settings(&placed, "llama-server").unwrap();
    assert_eq!(config.secrets_key_path, "/var/lib/ng/secrets/byok.key");
    placed.secrets_key_path = Some("keys/k.bin".to_string());
    let config = AppConfig::from_settings(&placed, "llama-server").unwrap();
    assert_eq!(config.secrets_key_path, "keys/k.bin");
}

#[test]
fn config_errors_name_the_setting() {
    let mut bad = settings();
    bad.app_mode = Some("Mobile".to_string());
    bad.port = Some("x".to_string());
    assert_eq!(config_error(&bad), "unsupported APP_MODE: mobile");
    bad.app_mode = None;
    assert_eq!(config_error(&bad), "invalid PORT: invalid digit found in string");
    bad.port = Some("70000".to_string());
    assert_eq!(config_error(&bad), "invalid PORT: number too large to fit in target type");
    bad.port = None;
    bad.llama_cpp_timeout_secs = Some(String::new());
    assert_eq!(config_error(&bad), "invalid LLAMA_CPP_TIMEOUT_SECS: cannot parse integer from empty string");
    bad.llama_cpp_timeout_secs = None;
    bad.gemini_timeout_secs = Some("-5".to_string());
    assert_eq!(config_error(&bad), "invalid GEMINI_TIMEOUT_SECS: invalid digit found in string");
}
