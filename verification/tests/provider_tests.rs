use novelgraph::ai::{normalize_llama_cpp_config, AiError, LlamaCppConfig};
use novelgraph::byok::{
    config_view, encode_secret_key, key_from_passphrase, key_from_stored_text, normalized_provider,
    normalized_url, open_secret, optional_api_key, parse_sealed_secret, plan_check_key,
    plan_save_config, probe_health, probe_url, provider_preset, provider_presets, require_text,
    seal_secret, seal_secret_with_nonce, secret_fingerprint, stored_key_ref, unix_timestamp_label,
};
use novelgraph::domain::{
    ByokProviderConfigRecord, CheckByokProviderKeyInput, SaveByokProviderConfigInput,
};
use novelgraph::errors::ApiError;
use novelgraph::redact::{redact_bearer_tokens, redact_google_api_keys, redact_provider_error_message};

#[test]
fn normalizes_base_url_and_default_model() {
    let config = normalize_llama_cpp_config(&LlamaCppConfig {
        base_url: "http://127.0.0.1:8080/".to_string(),
        default_model: "qwen3".to_string(),
        timeout_secs: 0,
    })
    .unwrap();

    assert_eq!(config.base_url, "http://127.0.0.1:8080");
    assert_eq!(config.default_model, "qwen3");
}

#[test]
fn rejects_invalid_base_url() {
    let error = normalize_llama_cpp_config(&LlamaCppConfig {
        base_url: "127.0.0.1:8080".to_string(),
        default_model: "qwen3".to_string(),
        timeout_secs: 30,
    })
    .unwrap_err()
    .message();

    assert!(error.contains("must start with"));
}

#[test]
fn llama_cpp_config_raises_zero_timeout_and_requires_model() {
    let config = normalize_llama_cpp_config(&LlamaCppConfig {
        base_url: " https://llm.local/// ".to_string(),
        default_model: " qwen3 ".to_string(),
        timeout_secs: 0,
    })
    .unwrap();
    assert_eq!(config.base_url, "https://llm.local");
    assert_eq!(config.default_model, "qwen3");
    assert_eq!(config.timeout_secs, 1);

    let missing = normalize_llama_cpp_config(&LlamaCppConfig {
        base_url: "http://127.0.0.1:8080".to_string(),
        default_model: "   ".to_string(),
        timeout_secs: 5,
    });
    match missing {
        Err(AiError::InvalidConfig(message)) => {
            assert_eq!(message, "LLAMA_CPP_DEFAULT_MODEL is required")
        }
        _ => panic!("expected a configuration error"),
    }
}

#[test]
fn redacts_google_api_keys() {
    let text = "invalid key AIzaSyA1234567890ABCDEFGHIJKLMNOP";
    let redacted = redact_google_api_keys(text);
    assert!(!redacted.contains("AIza"));
    assert!(redacted.contains("[redacted_api_key]"));
}

#[test]
fn redacts_bearer_tokens() {
    let text = "Authorization: Bearer super-secret-token";
    let redacted = redact_bearer_tokens(text);
    assert!(redacted.contains("Bearer [redacted_token]"));
    assert!(!redacted.contains("super-secret-token"));
}

#[test]
fn redaction_keeps_safe_message() {
    let text = "{\"error\":\"Bearer token invalid: AIzaSyA1234567890ABCDEFGHIJK\"}";
    let redacted = redact_provider_error_message(text);
    assert!(redacted.contains("[redacted"));
    assert!(!redacted.contains("AIza"));
}

fn test_key() -> Vec<u8> {
    (0u8..32).collect()
}

#[test]
fn sealed_key_opens_to_the_same_text() {
    let key = test_key();
    let nonce = vec![1u8; 12];
    let sealed = seal_secret_with_nonce(&key, &nonce, "sk-live-123").unwrap();
    assert!(sealed.starts_with("ngenc:v1:AQEBAQEBAQEBAQEB:"));
    assert_eq!(open_secret(&key, &sealed).unwrap(), "sk-live-123");

    let random = seal_secret(&key, "another key").unwrap();
    assert_ne!(random, sealed);
    assert_eq!(open_secret(&key, &random).unwrap(), "another key");
}

#[test]
fn sealed_key_does_not_open_under_another_key() {
    let key = test_key();
    let sealed = seal_secret_with_nonce(&key, &vec![7u8; 12], "secret").unwrap();
    let other = vec![9u8; 32];
    let error = open_secret(&other, &sealed).unwrap_err();
    assert_eq!(error.status, 500);
    assert_eq!(error.message, "failed to decrypt stored BYOK key");
}

#[test]
fn stored_key_format_errors() {
    let key = test_key();
    let cases = [
        ("plain", "stored BYOK key format is unsupported"),
        ("ngenc:v2:AA:AA", "stored BYOK key format is unsupported"),
        ("ngenc:v1:a:b:c", "stored BYOK key format is unsupported"),
        ("ngenc:v1", "stored BYOK key nonce is missing"),
        ("ngenc:v1:AQEBAQEBAQEBAQEB", "stored BYOK ciphertext is missing"),
        ("ngenc:v1:!!:AA", "stored BYOK key nonce is invalid"),
        ("ngenc:v1:AQEB:AA", "stored BYOK key nonce length is invalid"),
        ("ngenc:v1:AQEBAQEBAQEBAQEB:A", "stored BYOK ciphertext is invalid"),
    ];
    for (value, message) in cases {
        let error = open_secret(&key, value).unwrap_err();
        assert_eq!(error.status, 500, "{value}");
        assert_eq!(error.code, "internal_error");
        assert_eq!(error.message, message, "{value}");
    }
    let (nonce, sealed) = parse_sealed_secret("ngenc:v1:AQEBAQEBAQEBAQEB:AAEC").unwrap();
    assert_eq!(nonce, vec![1u8; 12]);
    assert_eq!(sealed, vec![0u8, 1, 2]);
}

#[test]
fn fingerprint_is_base64_of_digest_prefix() {
    assert_eq!(secret_fingerprint("abc"), "ungWv48Bz+pB");
}

#[test]
fn key_file_text_round_trips() {
    let key = test_key();
    let text = encode_secret_key(&key);
    assert_eq!(text, "AAECAwQFBgcICQoLDA0ODxAREhMUFRYXGBkaGxwdHh8");
    assert_eq!(key_from_stored_text(&format!("  {text}\n")).unwrap(), key);
    assert_eq!(
        key_from_stored_text("not base64!").unwrap_err().message,
        "local BYOK encryption key is invalid"
    );
    assert_eq!(
        key_from_stored_text("AAEC").unwrap_err().message,
        "local BYOK encryption key length is invalid"
    );
    let derived = key_from_passphrase("passphrase");
    assert_eq!(derived.len(), 32);
    assert_eq!(derived, key_from_passphrase("passphrase"));
    assert_ne!(derived, key_from_passphrase("other"));
}

#[test]
fn checks_provider_url_and_required_text() {
    assert_eq!(normalized_provider(" openai-compatible ").unwrap(), "openai-compatible");
    assert_eq!(
        normalized_provider("bad provider").unwrap_err().message,
        "provider contains unsupported characters"
    );
    assert_eq!(normalized_provider("  ").unwrap_err().message, "provider is required");
    assert_eq!(normalized_url(" https://api.example.com/v1/// ").unwrap(), "https://api.example.com/v1");
    assert_eq!(
        normalized_url("ftp://example.com").unwrap_err().message,
        "base_url must start with http:// or https://"
    );
    assert_eq!(normalized_url("").unwrap_err().message, "base_url is required");
    let error: ApiError = require_text(" ", "model").unwrap_err();
    assert_eq!(error.status, 400);
    assert_eq!(error.code, "invalid_request");
    assert_eq!(error.message, "model is required");
    assert_eq!(require_text(" gemini-2.5-pro ", "model").unwrap(), "gemini-2.5-pro");
}

#[test]
fn optional_api_key_skips_blank_and_mask() {
    assert_eq!(optional_api_key(Some(" key ".to_string())), Some("key".to_string()));
    assert_eq!(optional_api_key(Some("********".to_string())), None);
    assert_eq!(optional_api_key(Some("   ".to_string())), None);
    assert_eq!(optional_api_key(None), None);
    assert_eq!(optional_api_key(Some("**a*".to_string())), Some("**a*".to_string()));
}

#[test]
fn presets_and_config_view() {
    let presets = provider_presets();
    assert_eq!(presets.len(), 2);
    assert_eq!(presets[0].id, "gemini");
    assert_eq!(presets[0].models.len(), 3);
    assert_eq!(provider_preset("openai-compatible").unwrap().default_model, "provider-model-id");
    assert!(provider_preset("other").is_none());

    let view = config_view(None);
    assert_eq!(view.provider, "gemini");
    assert_eq!(view.display_name, "Google Gemini");
    assert_eq!(view.model, "gemini-2.5-flash");
    assert!(!view.has_api_key);
    assert_eq!(view.api_key_masked, "");

    let record = ByokProviderConfigRecord {
        id: "1".to_string(),
        user_id: "local".to_string(),
        provider: "custom".to_string(),
        display_name: "Custom".to_string(),
        base_url: None,
        model: Some("m1".to_string()),
        api_format: "openai".to_string(),
        encrypted_secret_ref: Some("ngenc:v1:x:y".to_string()),
        key_fingerprint: Some("fp".to_string()),
        session_only: false,
        last_checked_at: None,
        last_health_status: Some("valid".to_string()),
        created_at: "t0".to_string(),
        updated_at: "t1".to_string(),
    };
    let view = config_view(Some(&record));
    assert_eq!(view.provider, "custom");
    assert_eq!(view.base_url, "https://generativelanguage.googleapis.com/v1beta/openai");
    assert_eq!(view.model, "m1");
    assert!(view.has_api_key);
    assert_eq!(view.api_key_masked, "********");
    assert_eq!(view.updated_at, Some("t1".to_string()));
    assert_eq!(stored_key_ref(Some(&record)).unwrap(), "ngenc:v1:x:y");
    assert_eq!(stored_key_ref(None).unwrap_err().message, "API key is required");
}

#[test]
fn plans_save_and_check() {
    let plan = plan_save_config(&SaveByokProviderConfigInput {
        provider: "gemini".to_string(),
        base_url: "https://x.test/".to_string(),
        model: " gemini-2.5-pro ".to_string(),
        api_key: Some(" k ".to_string()),
        session_only: true,
    })
    .unwrap();
    assert_eq!(plan.display_name, "Google Gemini");
    assert_eq!(plan.base_url, "https://x.test");
    assert_eq!(plan.model, "gemini-2.5-pro");
    assert_eq!(plan.api_key, None);

    let plan = plan_save_config(&SaveByokProviderConfigInput {
        provider: "mine".to_string(),
        base_url: "http://x.test".to_string(),
        model: "m".to_string(),
        api_key: Some(" k ".to_string()),
        session_only: false,
    })
    .unwrap();
    assert_eq!(plan.display_name, "mine");
    assert_eq!(plan.api_format, "openai");
    assert_eq!(plan.api_key, Some("k".to_string()));

    let error = plan_check_key(&CheckByokProviderKeyInput {
        provider: "gemini".to_string(),
        base_url: "x.test".to_string(),
        model: "".to_string(),
        api_key: None,
    })
    .unwrap_err();
    assert_eq!(error.message, "base_url must start with http:// or https://");
}

#[test]
fn probe_outcomes() {
    assert_eq!(probe_url("gemini", "https://g.test", "m"), "https://g.test/models/m");
    assert_eq!(probe_url("openai-compatible", "https://o.test", "m"), "https://o.test/models");
    let ok = probe_health("gemini", "b", "m", Some(204), "unix:1".to_string());
    assert!(ok.valid);
    assert_eq!(ok.message, "Provider accepted the API key");
    let rejected = probe_health("gemini", "b", "m", Some(403), "unix:1".to_string());
    assert!(!rejected.valid);
    assert_eq!(rejected.message, "Provider rejected the API key");
    let other = probe_health("gemini", "b", "m", Some(500), "unix:1".to_string());
    assert_eq!(other.message, "Provider returned a non-success status");
    let failed = probe_health("gemini", "b", "m", None, "unix:1".to_string());
    assert_eq!(failed.message, "Provider health request failed");
    assert_eq!(failed.status_code, None);
    assert_eq!(unix_timestamp_label(1700000000), "unix:1700000000");
}

#[test]
fn api_errors_carry_status_and_code() {
    assert_eq!(ApiError::not_found("novel").message, "novel was not found");
    assert_eq!(ApiError::not_found("novel").status, 404);
    assert_eq!(ApiError::conflict("x".to_string()).code, "invalid_job_transition");
    assert_eq!(ApiError::internal("x".to_string()).status, 500);
}
