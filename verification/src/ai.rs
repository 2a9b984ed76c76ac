//! Provider-side logic of the AI layer: the shared request/response records,
//! configuration checks, usage mapping, model capabilities and the redaction
//! of secrets from provider error bodies.
use vstd::prelude::*;
use crate::text::{
    ascii_lower_seq, chars_of, contains_chars, contains_seq, has_prefix, is_ascii_alnum, is_ws,
    opt_view, owned, push_str, str_is_blank, string_of, string_of_range, trim, trim_bounds,
    trim_str,
};
use crate::config::to_ascii_lowercase;

verus! {

// ------------------------------------------------------------------------
// Records.
// ------------------------------------------------------------------------
#[derive(Debug)]
pub enum AiError {
    InvalidConfig(String),
    InvalidRequest(String),
    HttpStatus { status: u16, message: String },
    ProviderConfig(String),
    ProviderRequest(String),
    ProviderHttpStatus { status: u16, message: String },
    StructuredOutput(String),
}

#[derive(Debug, Clone)]
pub struct LocalLlmHealth {
    pub provider: &'static str,
    pub base_url: String,
    pub reachable: bool,
    pub status_code: Option<u16>,
    pub status_text: Option<String>,
}

#[derive(Debug, Clone, Copy, PartialEq, Eq, Structural)]
pub enum LlmRole {
    System,
    User,
    Assistant,
    Tool,
}

#[derive(Debug, Clone, PartialEq)]
pub struct ChatMessage {
    pub role: LlmRole,
    pub content: String,
}

#[derive(Debug, Clone, PartialEq)]
pub struct ChatCompletionResponse {
    pub id: Option<String>,
    pub model: Option<String>,
    pub choices: Vec<ChatChoice>,
    pub usage: Option<TokenUsage>,
}

#[derive(Debug, Clone, PartialEq)]
pub struct ChatChoice {
    pub index: Option<u32>,
    pub message: ChatMessage,
    pub finish_reason: Option<String>,
}

#[derive(Debug, Clone, Copy, PartialEq, Eq)]
pub struct TokenUsage {
    pub prompt_tokens: Option<u32>,
    pub completion_tokens: Option<u32>,
    pub total_tokens: Option<u32>,
}

#[derive(Debug, Clone, PartialEq, Eq)]
pub struct ModelListResponse {
    pub data: Vec<ModelInfo>,
}

#[derive(Debug, Clone, PartialEq, Eq)]
pub struct ModelInfo {
    pub id: String,
    pub object: Option<String>,
    pub owned_by: Option<String>,
}

#[derive(Debug, Clone, Copy, PartialEq, Eq)]
pub struct ProviderModelCapabilities {
    pub supports_structured_output: bool,
    pub max_input_tokens: Option<u32>,
    pub max_output_tokens: Option<u32>,
    pub supports_context_caching: bool,
    pub supports_thinking_config: bool,
}

#[derive(Debug, Clone, PartialEq, Eq)]
pub struct ProviderKeyValidation {
    pub valid: bool,
    pub status_code: Option<u16>,
    pub message: String,
}

#[derive(Debug, Clone, Copy, PartialEq, Eq)]
pub struct StructuredGenerationUsage {
    pub input_tokens: Option<u32>,
    pub output_tokens: Option<u32>,
    pub total_tokens: Option<u32>,
}

#[derive(Debug, Clone, PartialEq, Eq)]
pub struct StructuredGenerationResponse {
    pub provider: String,
    pub model: String,
    pub json_text: String,
    pub usage: StructuredGenerationUsage,
    pub finish_reason: Option<String>,
    pub trace_id: Option<String>,
}

#[derive(Debug, Clone, PartialEq, Eq)]
pub struct ProviderChatResponse {
    pub provider: String,
    pub model: String,
    pub content: String,
    pub usage: StructuredGenerationUsage,
    pub finish_reason: Option<String>,
    pub trace_id: Option<String>,
}

#[derive(Debug, Clone)]
pub struct LlamaCppConfig {
    pub base_url: String,
    pub default_model: String,
    pub timeout_secs: u64,
}

#[derive(Debug, Clone)]
pub struct GeminiProviderConfig {
    pub base_url: String,
    pub timeout_secs: u64,
}

#[derive(Debug, Clone)]
pub struct OpenAiCompatibleProviderConfig {
    pub provider_name: &'static str,
    pub base_url: String,
    pub timeout_secs: u64,
}

/// The Gemini usage block of a response.
#[derive(Debug, Clone, Copy)]
pub struct GeminiUsageMetadata {
    pub prompt_token_count: Option<u32>,
    pub candidates_token_count: Option<u32>,
    pub total_token_count: Option<u32>,
}

#[derive(Debug, Clone)]
pub struct GeminiPart {
    pub text: Option<String>,
}

#[derive(Debug, Clone)]
pub struct GeminiContent {
    pub role: Option<String>,
    pub parts: Vec<GeminiPart>,
}

#[derive(Debug, Clone)]
pub struct GeminiCandidate {
    pub content: Option<GeminiContent>,
    pub finish_reason: Option<String>,
}

/// The parts of a Gemini `generateContent` response that the provider reads.
#[derive(Debug, Clone)]
pub struct GeminiGenerateContentResponse {
    pub candidates: Vec<GeminiCandidate>,
    pub usage_metadata: Option<GeminiUsageMetadata>,
    pub model_version: Option<String>,
}

// ------------------------------------------------------------------------
// Error messages.
// ------------------------------------------------------------------------
fn prefixed(prefix: &str, detail: &str) -> (r: String)
    ensures
        r@ == prefix@ + detail@,
{
    let mut out = owned(prefix);
    push_str(&mut out, detail);
    out
}

fn http_message(prefix: &str, status: u16, message: &str) -> (r: String)
    ensures
        r@ == prefix@ + crate::text::nat_digits(status as nat) + ": "@ + message@,
{
    let mut out = owned(prefix);
    let code = crate::text::u64_to_string(status as u64);
    push_str(&mut out, code.as_str());
    push_str(&mut out, ": ");
    push_str(&mut out, message);
    out
}

impl AiError {
    /// The human-readable message of the error.
    pub fn message(&self) -> (r: String)
        ensures
            match self {
                AiError::InvalidConfig(m) => r@ == "invalid local LLM configuration: "@ + m@,
                AiError::InvalidRequest(m) => r@ == "invalid local LLM request: "@ + m@,
                AiError::HttpStatus { status, message } => r@ == "local LLM returned HTTP "@
                    + crate::text::nat_digits(*status as nat) + ": "@ + message@,
                AiError::ProviderConfig(m) => r@ == "provider configuration is invalid: "@ + m@,
                AiError::ProviderRequest(m) => r@ == "provider request failed: "@ + m@,
                AiError::ProviderHttpStatus { status, message } => r@ == "provider returned HTTP "@
                    + crate::text::nat_digits(*status as nat) + ": "@ + message@,
                AiError::StructuredOutput(m) => r@ == "provider returned invalid structured output: "@
                    + m@,
            },
    {
        match self {
            AiError::InvalidConfig(m) => prefixed("invalid local LLM configuration: ", m.as_str()),
            AiError::InvalidRequest(m) => prefixed("invalid local LLM request: ", m.as_str()),
            AiError::HttpStatus { status, message } => http_message(
                "local LLM returned HTTP ",
                *status,
                message.as_str(),
            ),
            AiError::ProviderConfig(m) => prefixed(
                "provider configuration is invalid: ",
                m.as_str(),
            ),
            AiError::ProviderRequest(m) => prefixed("provider request failed: ", m.as_str()),
            AiError::ProviderHttpStatus { status, message } => http_message(
                "provider returned HTTP ",
                *status,
                message.as_str(),
            ),
            AiError::StructuredOutput(m) => prefixed(
                "provider returned invalid structured output: ",
                m.as_str(),
            ),
        }
    }
}

// ------------------------------------------------------------------------
// Base URLs.
// ------------------------------------------------------------------------
/// `s` without its trailing `/` characters.
pub open spec fn strip_trailing_slashes(s: Seq<char>) -> Seq<char>
    decreases s.len(),
{
    if s.len() > 0 && s.last() == '/' {
        strip_trailing_slashes(s.drop_last())
    } else {
        s
    }
}

/// The base URL as the clients keep it: trimmed, without trailing slashes.
pub open spec fn clean_base_url(value: Seq<char>) -> Seq<char> {
    strip_trailing_slashes(trim(value))
}

pub open spec fn has_http_scheme(url: Seq<char>) -> bool {
    has_prefix(url, "http://"@) || has_prefix(url, "https://"@)
}

/// The cleaned URL with its scheme checked, as `(cleaned, has scheme)`.
pub(crate) fn cleaned_url(value: &str) -> (r: (String, bool))
    ensures
        r.0@ == clean_base_url(value@),
        r.1 == has_http_scheme(clean_base_url(value@)),
{
    let cs = chars_of(value);
    let (a, mut b) = trim_bounds(&cs);
    let ghost t = cs@.subrange(a as int, b as int);
    while b > a && cs[b - 1] == '/'
        invariant
            a <= b <= cs@.len(),
            t == trim(cs@),
            strip_trailing_slashes(t) == strip_trailing_slashes(cs@.subrange(a as int, b as int)),
        decreases b,
    {
        proof {
            assert(cs@.subrange(a as int, b as int).drop_last() =~= cs@.subrange(
                a as int,
                b - 1,
            ));
        }
        b -= 1;
    }
    proof {
        let u = cs@.subrange(a as int, b as int);
        if b > a {
            assert(u.last() == cs@[b - 1]);
        }
        assert(strip_trailing_slashes(u) == u);
    }
    let url = string_of_range(&cs, a, b);
    let scheme = crate::text::str_starts_with(url.as_str(), "http://")
        || crate::text::str_starts_with(url.as_str(), "https://");
    (url, scheme)
}

/// Checks and cleans a llama.cpp base URL.
pub fn normalize_llama_cpp_base_url(value: &str) -> (r: Result<String, AiError>)
    ensures
        match r {
            Ok(url) => url@ == clean_base_url(value@) && url@.len() > 0 && has_http_scheme(url@),
            Err(AiError::InvalidConfig(m)) => (clean_base_url(value@).len() == 0 && m@
                == "LLAMA_CPP_BASE_URL is required"@) || (clean_base_url(value@).len() > 0
                && !has_http_scheme(clean_base_url(value@)) && m@
                == "LLAMA_CPP_BASE_URL must start with http:// or https://"@),
            Err(_) => false,
        },
{
    let (url, scheme) = cleaned_url(value);
    if url.as_str().is_empty() {
        return Err(AiError::InvalidConfig(owned("LLAMA_CPP_BASE_URL is required")));
    }
    if !scheme {
        return Err(
            AiError::InvalidConfig(owned("LLAMA_CPP_BASE_URL must start with http:// or https://")),
        );
    }
    Ok(url)
}

/// Checks and cleans a Gemini base URL.
pub fn normalize_gemini_base_url(value: &str) -> (r: Result<String, AiError>)
    ensures
        match r {
            Ok(url) => url@ == clean_base_url(value@) && url@.len() > 0 && has_http_scheme(url@),
            Err(AiError::ProviderConfig(m)) => (clean_base_url(value@).len() == 0 && m@
                == "Gemini base URL is required"@) || (clean_base_url(value@).len() > 0
                && !has_http_scheme(clean_base_url(value@)) && m@
                == "Gemini base URL must start with http:// or https://"@),
            Err(_) => false,
        },
{
    let (url, scheme) = cleaned_url(value);
    if url.as_str().is_empty() {
        return Err(AiError::ProviderConfig(owned("Gemini base URL is required")));
    }
    if !scheme {
        return Err(
            AiError::ProviderConfig(owned("Gemini base URL must start with http:// or https://")),
        );
    }
    Ok(url)
}

/// Checks and cleans the base URL of an OpenAI-compatible provider.
pub fn normalize_openai_compatible_base_url(value: &str) -> (r: Result<String, AiError>)
    ensures
        match r {
            Ok(url) => url@ == clean_base_url(value@) && url@.len() > 0 && has_http_scheme(url@),
            Err(AiError::ProviderConfig(m)) => (clean_base_url(value@).len() == 0 && m@
                == "provider base URL is required"@) || (clean_base_url(value@).len() > 0
                && !has_http_scheme(clean_base_url(value@)) && m@
                == "provider base URL must start with http:// or https://"@),
            Err(_) => false,
        },
{
    let (url, scheme) = cleaned_url(value);
    if url.as_str().is_empty() {
        return Err(AiError::ProviderConfig(owned("provider base URL is required")));
    }
    if !scheme {
        return Err(
            AiError::ProviderConfig(owned("provider base URL must start with http:// or https://")),
        );
    }
    Ok(url)
}

/// The settings a llama.cpp client is built with: a checked base URL, a
/// non-empty trimmed default model and a timeout of at least one second.
pub fn normalize_llama_cpp_config(config: &LlamaCppConfig) -> (r: Result<LlamaCppConfig, AiError>)
    ensures
        match r {
            Ok(c) => {
                &&& c.base_url@ == clean_base_url(config.base_url@)
                &&& has_http_scheme(c.base_url@)
                &&& c.base_url@.len() > 0
                &&& c.default_model@ == trim(config.default_model@)
                &&& c.default_model@.len() > 0
                &&& c.timeout_secs == if config.timeout_secs < 1 {
                    1
                } else {
                    config.timeout_secs
                }
            },
            Err(AiError::InvalidConfig(m)) => if clean_base_url(config.base_url@).len() == 0 {
                m@ == "LLAMA_CPP_BASE_URL is required"@
            } else if !has_http_scheme(clean_base_url(config.base_url@)) {
                m@ == "LLAMA_CPP_BASE_URL must start with http:// or https://"@
            } else {
                trim(config.default_model@).len() == 0 && m@
                    == "LLAMA_CPP_DEFAULT_MODEL is required"@
            },
            Err(_) => false,
        },
{
    let base_url = match normalize_llama_cpp_base_url(config.base_url.as_str()) {
        Ok(url) => url,
        Err(e) => return Err(e),
    };
    let default_model = trim_str(config.default_model.as_str());
    if default_model.as_str().is_empty() {
        return Err(AiError::InvalidConfig(owned("LLAMA_CPP_DEFAULT_MODEL is required")));
    }
    let timeout_secs = if config.timeout_secs < 1 {
        1
    } else {
        config.timeout_secs
    };
    Ok(LlamaCppConfig { base_url, default_model, timeout_secs })
}

// ------------------------------------------------------------------------
// Usage and responses.
// ------------------------------------------------------------------------
/// Token usage of a Gemini response in the platform's terms.
pub fn map_usage(usage: &Option<GeminiUsageMetadata>) -> (r: StructuredGenerationUsage)
    ensures
        match usage {
            Some(u) => r.input_tokens == u.prompt_token_count && r.output_tokens
                == u.candidates_token_count && r.total_tokens == u.total_token_count,
            None => r.input_tokens is None && r.output_tokens is None && r.total_tokens is None,
        },
{
    match usage {
        Some(u) => StructuredGenerationUsage {
            input_tokens: u.prompt_token_count,
            output_tokens: u.candidates_token_count,
            total_tokens: u.total_token_count,
        },
        None => StructuredGenerationUsage {
            input_tokens: None,
            output_tokens: None,
            total_tokens: None,
        },
    }
}

/// Token usage of an OpenAI-style response in the platform's terms.
pub fn map_token_usage(usage: Option<TokenUsage>) -> (r: StructuredGenerationUsage)
    ensures
        match usage {
            Some(u) => r.input_tokens == u.prompt_tokens && r.output_tokens == u.completion_tokens
                && r.total_tokens == u.total_tokens,
            None => r.input_tokens is None && r.output_tokens is None && r.total_tokens is None,
        },
{
    match usage {
        Some(u) => StructuredGenerationUsage {
            input_tokens: u.prompt_tokens,
            output_tokens: u.completion_tokens,
            total_tokens: u.total_tokens,
        },
        None => StructuredGenerationUsage {
            input_tokens: None,
            output_tokens: None,
            total_tokens: None,
        },
    }
}

/// Index of the first part that carries text.
pub open spec fn first_text_part(parts: Seq<GeminiPart>) -> Option<int>
    decreases parts.len(),
{
    if parts.len() == 0 {
        None
    } else if parts[0].text is Some {
        Some(0)
    } else {
        match first_text_part(parts.drop_first()) {
            Some(i) => Some(i + 1),
            None => None,
        }
    }
}

proof fn lemma_first_text_part(parts: Seq<GeminiPart>, i: int)
    requires
        0 <= i <= parts.len(),
        forall|k: int| 0 <= k < i ==> (#[trigger] parts[k]).text is None,
    ensures
        i < parts.len() && parts[i].text is Some ==> first_text_part(parts) == Some(i),
        i == parts.len() ==> first_text_part(parts) is None,
    decreases i,
{
    if i > 0 {
        assert forall|k: int| 0 <= k < i - 1 implies (#[trigger] parts.drop_first()[k]).text is None by {
            assert(parts.drop_first()[k] == parts[k + 1]);
        }
        lemma_first_text_part(parts.drop_first(), i - 1);
        assert(parts[0].text is None);
    }
}

/// The text of the first candidate: its first text part, trimmed, if not empty.
pub open spec fn candidate_text(response: GeminiGenerateContentResponse) -> Option<Seq<char>> {
    if response.candidates@.len() == 0 {
        None
    } else {
        match response.candidates@[0].content {
            None => None,
            Some(content) => match first_text_part(content.parts@) {
                None => None,
                Some(i) => {
                    let t = trim(content.parts@[i].text->0@);
                    if t.len() > 0 {
                        Some(t)
                    } else {
                        None
                    }
                },
            },
        }
    }
}

/// The trimmed text of the first candidate, when there is one.
pub fn first_candidate_text(response: &GeminiGenerateContentResponse) -> (r: Option<String>)
    ensures
        opt_view(r) == candidate_text(*response),
{
    if response.candidates.len() == 0 {
        return None;
    }
    let candidate = &response.candidates[0];
    assert(*candidate == response.candidates@[0]);
    match &candidate.content {
        None => None,
        Some(content) => {
            let mut i: usize = 0;
            while i < content.parts.len()
                invariant
                    0 <= i <= content.parts@.len(),
                    response.candidates@.len() > 0,
                    response.candidates@[0].content == Some(*content),
                    forall|k: int| 0 <= k < i ==> (#[trigger] content.parts@[k]).text is None,
                decreases content.parts@.len() - i,
            {
                let part = &content.parts[i];
                match &part.text {
                    Some(text) => {
                        proof {
                            lemma_first_text_part(content.parts@, i as int);
                            assert(response.candidates@[0].content == Some(*content));
                            assert(content.parts@[i as int].text->0@ == text@);
                        }
                        let t = trim_str(text.as_str());
                        if t.as_str().is_empty() {
                            return None;
                        }
                        return Some(t);
                    },
                    None => {},
                }
                i += 1;
            }
            proof {
                lemma_first_text_part(content.parts@, i as int);
            }
            None
        },
    }
}

// ------------------------------------------------------------------------
// Model capabilities.
// ------------------------------------------------------------------------
pub const DEFAULT_FLASH_INPUT_TOKENS: u32 = 1_000_000;
pub const DEFAULT_FLASH_OUTPUT_TOKENS: u32 = 65_536;
pub const DEFAULT_PRO_INPUT_TOKENS: u32 = 1_000_000;
pub const DEFAULT_PRO_OUTPUT_TOKENS: u32 = 65_536;

/// Whether a Gemini model name names a 2.5 Pro model.
pub open spec fn is_gemini_pro(model: Seq<char>) -> bool {
    contains_seq(ascii_lower_seq(trim(model)), "2.5-pro"@)
}

/// What Gemini models support, by model name.
pub fn gemini_model_capabilities(model: &str) -> (r: ProviderModelCapabilities)
    ensures
        r.supports_structured_output,
        r.supports_context_caching,
        r.supports_thinking_config,
        is_gemini_pro(model@) ==> r.max_input_tokens == Some(DEFAULT_PRO_INPUT_TOKENS)
            && r.max_output_tokens == Some(DEFAULT_PRO_OUTPUT_TOKENS),
        !is_gemini_pro(model@) ==> r.max_input_tokens == Some(DEFAULT_FLASH_INPUT_TOKENS)
            && r.max_output_tokens == Some(DEFAULT_FLASH_OUTPUT_TOKENS),
{
    let t = trim_str(model);
    let tc = chars_of(t.as_str());
    let lower = to_ascii_lowercase(&tc);
    let pro = chars_of("2.5-pro");
    let (max_input_tokens, max_output_tokens) = if contains_chars(&lower, &pro) {
        (Some(DEFAULT_PRO_INPUT_TOKENS), Some(DEFAULT_PRO_OUTPUT_TOKENS))
    } else {
        (Some(DEFAULT_FLASH_INPUT_TOKENS), Some(DEFAULT_FLASH_OUTPUT_TOKENS))
    };
    ProviderModelCapabilities {
        supports_structured_output: true,
        max_input_tokens,
        max_output_tokens,
        supports_context_caching: true,
        supports_thinking_config: true,
    }
}

/// What a local llama.cpp server supports.
pub fn llama_cpp_model_capabilities(model: &str) -> (r: ProviderModelCapabilities)
    ensures
        r == (ProviderModelCapabilities {
            supports_structured_output: false,
            max_input_tokens: None,
            max_output_tokens: None,
            supports_context_caching: false,
            supports_thinking_config: true,
        }),
{
    ProviderModelCapabilities {
        supports_structured_output: false,
        max_input_tokens: None,
        max_output_tokens: None,
        supports_context_caching: false,
        supports_thinking_config: true,
    }
}

/// What an OpenAI-compatible provider supports.
pub fn openai_compatible_model_capabilities(model: &str) -> (r: ProviderModelCapabilities)
    ensures
        r == (ProviderModelCapabilities {
            supports_structured_output: false,
            max_input_tokens: None,
            max_output_tokens: None,
            supports_context_caching: false,
            supports_thinking_config: true,
        }),
{
    ProviderModelCapabilities {
        supports_structured_output: false,
        max_input_tokens: None,
        max_output_tokens: None,
        supports_context_caching: false,
        supports_thinking_config: true,
    }
}

} // verus!
