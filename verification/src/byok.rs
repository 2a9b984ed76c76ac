//! Bring-your-own-key provider settings: the provider presets, the view of a
//! stored configuration, input checks, and the sealing of API keys at rest.
use vstd::prelude::*;
use crate::domain::{
    ByokProviderConfigRecord, ByokProviderConfigView, ByokProviderKeyHealth, ByokProviderPreset,
    CheckByokProviderKeyInput, SaveByokProviderConfigInput, SaveByokProviderConfigResult,
};
use crate::errors::{answers_bad_request, is_internal, ApiError};
use crate::crypto::{
    aes_256_gcm_open, aes_256_gcm_seal, aes_gcm_max_input, b64_decode_text, b64_encode,
    b64_encode_bytes, b64_fits, lemma_b64_injective, lemma_b64_no_colon, open_aes_256_gcm,
    random_bytes, seal_aes_256_gcm, sha256, sha256_digest, utf8_to_string,
};
use vstd::utf8::{decode_utf8, encode_utf8, valid_utf8};
use crate::ai::{cleaned_url, clean_base_url, has_http_scheme, strip_trailing_slashes};
use crate::text::{
    char_is_ascii_alnum, chars_of, is_ascii_alnum, opt_view, owned, push_str, str_eq,
    str_is_blank, trim, trim_str,
};

verus! {

pub const GEMINI_OPENAI_BASE_URL: &'static str = "https://generativelanguage.googleapis.com/v1beta/openai";

pub const GEMINI_DEFAULT_MODEL: &'static str = "gemini-2.5-flash";

pub const SECRET_CIPHERTEXT_PREFIX: &'static str = "ngenc:v1";

// ------------------------------------------------------------------------
// Presets.
// ------------------------------------------------------------------------
/// The defaults a known provider brings: display name, base URL, default
/// model and API format.
pub open spec fn preset_defaults(id: Seq<char>) -> Option<(Seq<char>, Seq<char>, Seq<char>, Seq<char>)> {
    if id == "gemini"@ {
        Some(("Google Gemini"@, GEMINI_OPENAI_BASE_URL@, GEMINI_DEFAULT_MODEL@, "openai"@))
    } else if id == "openai-compatible"@ {
        Some(("OpenAI-compatible"@, "https://api.example.com/v1"@, "provider-model-id"@, "openai"@))
    } else {
        None
    }
}

/// The models a known provider lists.
pub open spec fn preset_models(id: Seq<char>) -> Seq<Seq<char>> {
    if id == "gemini"@ {
        seq!["gemini-2.5-flash"@, "gemini-2.5-pro"@, "gemini-2.0-flash"@]
    } else {
        seq![]
    }
}

/// `p` is the preset of the provider `id`.
pub open spec fn is_preset_of(p: ByokProviderPreset, id: Seq<char>) -> bool {
    &&& p.id@ == id
    &&& preset_defaults(id) == Some((p.name@, p.base_url@, p.default_model@, p.api_format@))
    &&& p.models@.map_values(|m: String| m@) == preset_models(id)
}

fn make_preset(
    id: &str,
    name: &str,
    base_url: &str,
    default_model: &str,
    models: Vec<String>,
) -> (p: ByokProviderPreset)
    ensures
        p.id@ == id@,
        p.name@ == name@,
        p.base_url@ == base_url@,
        p.default_model@ == default_model@,
        p.models == models,
        p.api_format@ == "openai"@,
{
    ByokProviderPreset {
        id: owned(id),
        name: owned(name),
        base_url: owned(base_url),
        default_model: owned(default_model),
        models,
        api_format: owned("openai"),
    }
}

/// The known providers: Google Gemini, then any OpenAI-compatible endpoint.
pub fn provider_presets() -> (r: Vec<ByokProviderPreset>)
    ensures
        r@.len() == 2,
        is_preset_of(r@[0], "gemini"@),
        is_preset_of(r@[1], "openai-compatible"@),
{
    let gemini_models = vec![
        owned("gemini-2.5-flash"),
        owned("gemini-2.5-pro"),
        owned("gemini-2.0-flash"),
    ];
    let gemini = make_preset(
        "gemini",
        "Google Gemini",
        GEMINI_OPENAI_BASE_URL,
        GEMINI_DEFAULT_MODEL,
        gemini_models,
    );
    let compatible = make_preset(
        "openai-compatible",
        "OpenAI-compatible",
        "https://api.example.com/v1",
        "provider-model-id",
        Vec::new(),
    );
    proof {
        reveal_strlit("gemini");
        reveal_strlit("openai-compatible");
        assert(gemini.models@.map_values(|m: String| m@) =~= preset_models("gemini"@));
        assert("openai-compatible"@ != "gemini"@) by {
            assert("openai-compatible"@.len() != "gemini"@.len());
        }
        assert(compatible.models@.len() == 0);
        assert(compatible.models@.map_values(|m: String| m@) =~= preset_models(
            "openai-compatible"@,
        ));
    }
    vec![gemini, compatible]
}

/// The preset whose id is `provider`, if there is one.
pub fn provider_preset(provider: &str) -> (r: Option<ByokProviderPreset>)
    ensures
        r matches Some(p) ==> is_preset_of(p, provider@),
        r is None <==> preset_defaults(provider@) is None,
{
    let mut presets = provider_presets();
    proof {
        reveal_strlit("gemini");
        reveal_strlit("openai-compatible");
    }
    let mut i: usize = 0;
    while i < presets.len()
        invariant
            presets@.len() == 2,
            is_preset_of(presets@[0], "gemini"@),
            is_preset_of(presets@[1], "openai-compatible"@),
            0 <= i <= 2,
            forall|k: int| 0 <= k < i ==> presets@[k].id@ != provider@,
        decreases 2 - i,
    {
        if str_eq(presets[i].id.as_str(), provider) {
            let p = presets.remove(i);
            return Some(p);
        }
        i += 1;
    }
    assert(presets@[0].id@ != provider@);
    assert(presets@[1].id@ != provider@);
    None
}

// ------------------------------------------------------------------------
// The view of a stored configuration.
// ------------------------------------------------------------------------
/// The provider a view shows: the stored one, else Gemini.
pub open spec fn view_provider(record: Option<ByokProviderConfigRecord>) -> Seq<char> {
    match record {
        Some(rec) => rec.provider@,
        None => "gemini"@,
    }
}

/// A stored field where the record has one, else the preset's, else a fallback.
pub open spec fn field_or_preset(
    stored: Option<Seq<char>>,
    preset: Option<Seq<char>>,
    fallback: Seq<char>,
) -> Seq<char> {
    match stored {
        Some(v) => v,
        None => match preset {
            Some(v) => v,
            None => fallback,
        },
    }
}

pub open spec fn preset_name(id: Seq<char>) -> Option<Seq<char>> {
    match preset_defaults(id) {
        Some(d) => Some(d.0),
        None => None,
    }
}

pub open spec fn preset_base_url(id: Seq<char>) -> Option<Seq<char>> {
    match preset_defaults(id) {
        Some(d) => Some(d.1),
        None => None,
    }
}

pub open spec fn preset_model(id: Seq<char>) -> Option<Seq<char>> {
    match preset_defaults(id) {
        Some(d) => Some(d.2),
        None => None,
    }
}

pub open spec fn preset_api_format(id: Seq<char>) -> Option<Seq<char>> {
    match preset_defaults(id) {
        Some(d) => Some(d.3),
        None => None,
    }
}

/// What the settings screen shows for an optional stored configuration:
/// stored values first, then the provider's preset, then Gemini's defaults;
/// the key itself never, only whether one is stored.
pub open spec fn config_view_spec(
    record: Option<ByokProviderConfigRecord>,
    v: ByokProviderConfigView,
) -> bool {
    let provider = view_provider(record);
    let has_key = match record {
        Some(rec) => rec.encrypted_secret_ref is Some,
        None => false,
    };
    &&& v.provider@ == provider
    &&& v.display_name@ == field_or_preset(
        match record {
            Some(rec) => Some(rec.display_name@),
            None => None,
        },
        preset_name(provider),
        "Google Gemini"@,
    )
    &&& v.base_url@ == field_or_preset(
        match record {
            Some(rec) => opt_view(rec.base_url),
            None => None,
        },
        preset_base_url(provider),
        GEMINI_OPENAI_BASE_URL@,
    )
    &&& v.model@ == field_or_preset(
        match record {
            Some(rec) => opt_view(rec.model),
            None => None,
        },
        preset_model(provider),
        GEMINI_DEFAULT_MODEL@,
    )
    &&& v.api_format@ == field_or_preset(
        match record {
            Some(rec) => Some(rec.api_format@),
            None => None,
        },
        preset_api_format(provider),
        "openai"@,
    )
    &&& v.has_api_key == has_key
    &&& v.api_key_masked@ == (if has_key {
        "********"@
    } else {
        ""@
    })
    &&& opt_view(v.key_fingerprint) == match record {
        Some(rec) => opt_view(rec.key_fingerprint),
        None => None,
    }
    &&& v.session_only == match record {
        Some(rec) => rec.session_only,
        None => false,
    }
    &&& opt_view(v.last_checked_at) == match record {
        Some(rec) => opt_view(rec.last_checked_at),
        None => None,
    }
    &&& opt_view(v.last_health_status) == match record {
        Some(rec) => opt_view(rec.last_health_status),
        None => None,
    }
    &&& opt_view(v.updated_at) == match record {
        Some(rec) => Some(rec.updated_at@),
        None => None,
    }
}

fn clone_opt(value: &Option<String>) -> (r: Option<String>)
    ensures
        opt_view(r) == opt_view(*value),
{
    match value {
        Some(v) => Some(v.clone()),
        None => None,
    }
}

/// A stored field, else the preset's (already looked up), else a fallback.
fn pick_field(stored: Option<String>, preset: Option<String>, fallback: &str) -> (r: String)
    ensures
        r@ == field_or_preset(opt_view(stored), opt_view(preset), fallback@),
{
    match stored {
        Some(v) => v,
        None => match preset {
            Some(v) => v,
            None => owned(fallback),
        },
    }
}

/// The view of an optional stored configuration.
pub fn config_view(record: Option<&ByokProviderConfigRecord>) -> (v: ByokProviderConfigView)
    ensures
        config_view_spec(
            match record {
                Some(rec) => Some(*rec),
                None => None,
            },
            v,
        ),
{
    let provider = match record {
        Some(rec) => rec.provider.clone(),
        None => owned("gemini"),
    };
    let preset = provider_preset(provider.as_str());
    proof {
        reveal_strlit("gemini");
        reveal_strlit("openai-compatible");
    }
    let (p_name, p_base, p_model, p_format) = match preset {
        Some(p) => (Some(p.name), Some(p.base_url), Some(p.default_model), Some(p.api_format)),
        None => (None, None, None, None),
    };
    let has_api_key = match record {
        Some(rec) => rec.encrypted_secret_ref.is_some(),
        None => false,
    };
    let display_name = pick_field(
        match record {
            Some(rec) => Some(rec.display_name.clone()),
            None => None,
        },
        p_name,
        "Google Gemini",
    );
    let base_url = pick_field(
        match record {
            Some(rec) => clone_opt(&rec.base_url),
            None => None,
        },
        p_base,
        GEMINI_OPENAI_BASE_URL,
    );
    let model = pick_field(
        match record {
            Some(rec) => clone_opt(&rec.model),
            None => None,
        },
        p_model,
        GEMINI_DEFAULT_MODEL,
    );
    let api_format = pick_field(
        match record {
            Some(rec) => Some(rec.api_format.clone()),
            None => None,
        },
        p_format,
        "openai",
    );
    let api_key_masked = if has_api_key {
        owned("********")
    } else {
        owned("")
    };
    match record {
        Some(rec) => ByokProviderConfigView {
            provider,
            display_name,
            base_url,
            model,
            api_format,
            has_api_key,
            api_key_masked,
            key_fingerprint: clone_opt(&rec.key_fingerprint),
            session_only: rec.session_only,
            last_checked_at: clone_opt(&rec.last_checked_at),
            last_health_status: clone_opt(&rec.last_health_status),
            updated_at: Some(rec.updated_at.clone()),
        },
        None => ByokProviderConfigView {
            provider,
            display_name,
            base_url,
            model,
            api_format,
            has_api_key,
            api_key_masked,
            key_fingerprint: None,
            session_only: false,
            last_checked_at: None,
            last_health_status: None,
            updated_at: None,
        },
    }
}

// ------------------------------------------------------------------------
// Input checks.
// ------------------------------------------------------------------------
/// A required text field: its trimmed value, or the message that it is missing.
pub open spec fn required(value: Seq<char>, field: Seq<char>) -> Result<Seq<char>, Seq<char>> {
    if trim(value).len() == 0 {
        Err(field + " is required"@)
    } else {
        Ok(trim(value))
    }
}

pub open spec fn is_provider_char(c: char) -> bool {
    is_ascii_alnum(c) || c == '-' || c == '_'
}

/// A provider id: required, and made of ASCII letters, digits, `-` and `_`.
pub open spec fn provider_checked(value: Seq<char>) -> Result<Seq<char>, Seq<char>> {
    match required(value, "provider"@) {
        Err(m) => Err(m),
        Ok(p) => if forall|i: int| 0 <= i < p.len() ==> is_provider_char(#[trigger] p[i]) {
            Ok(p)
        } else {
            Err("provider contains unsupported characters"@)
        },
    }
}

/// A base URL: required, without trailing slashes, with an HTTP(S) scheme.
pub open spec fn url_checked(value: Seq<char>) -> Result<Seq<char>, Seq<char>> {
    match required(value, "base_url"@) {
        Err(m) => Err(m),
        Ok(t) => if has_http_scheme(strip_trailing_slashes(t)) {
            Ok(strip_trailing_slashes(t))
        } else {
            Err("base_url must start with http:// or https://"@)
        },
    }
}

/// The trimmed value of a required field, or `400` naming the field.
pub fn require_text(value: &str, field: &str) -> (r: Result<String, ApiError>)
    ensures
        answers_bad_request(r, required(value@, field@)),
{
    let t = trim_str(value);
    if t.as_str().is_empty() {
        let mut message = owned(field);
        push_str(&mut message, " is required");
        return Err(ApiError::bad_request(message));
    }
    Ok(t)
}

/// The provider id, checked.
pub fn normalized_provider(provider: &str) -> (r: Result<String, ApiError>)
    ensures
        answers_bad_request(r, provider_checked(provider@)),
{
    let p = match require_text(provider, "provider") {
        Ok(p) => p,
        Err(e) => return Err(e),
    };
    let cs = chars_of(p.as_str());
    let mut i: usize = 0;
    while i < cs.len()
        invariant
            cs@ == p@,
            p@ == trim(provider@),
            0 <= i <= cs@.len(),
            forall|k: int| 0 <= k < i ==> is_provider_char(#[trigger] cs@[k]),
        decreases cs@.len() - i,
    {
        let c = cs[i];
        if !(char_is_ascii_alnum(c) || c == '-' || c == '_') {
            proof {
                assert(trim(provider@) == p@);
                assert(!is_provider_char(trim(provider@)[i as int]));
            }
            return Err(ApiError::bad_request(owned("provider contains unsupported characters")));
        }
        i += 1;
    }
    Ok(p)
}

/// The base URL, checked and without trailing slashes.
pub fn normalized_url(value: &str) -> (r: Result<String, ApiError>)
    ensures
        answers_bad_request(r, url_checked(value@)),
{
    match require_text(value, "base_url") {
        Ok(_) => {},
        Err(e) => return Err(e),
    }
    let (url, scheme) = cleaned_url(value);
    if scheme {
        Ok(url)
    } else {
        Err(ApiError::bad_request(owned("base_url must start with http:// or https://")))
    }
}

pub open spec fn all_stars(s: Seq<char>) -> bool {
    forall|i: int| 0 <= i < s.len() ==> s[i] == '*'
}

/// The API key given in a form: trimmed, and absent when it is blank or only
/// the mask of stars the form shows for a stored key.
pub open spec fn api_key_given(value: Option<Seq<char>>) -> Option<Seq<char>> {
    match value {
        Some(v) => if trim(v).len() > 0 && !all_stars(trim(v)) {
            Some(trim(v))
        } else {
            None
        },
        None => None,
    }
}

fn is_all_stars(s: &str) -> (r: bool)
    ensures
        r == all_stars(s@),
{
    let cs = chars_of(s);
    let mut i: usize = 0;
    while i < cs.len()
        invariant
            cs@ == s@,
            0 <= i <= cs@.len(),
            forall|k: int| 0 <= k < i ==> cs@[k] == '*',
        decreases cs@.len() - i,
    {
        if cs[i] != '*' {
            assert(s@[i as int] != '*');
            return false;
        }
        i += 1;
    }
    true
}

pub fn optional_api_key(value: Option<String>) -> (r: Option<String>)
    ensures
        opt_view(r) == api_key_given(opt_view(value)),
{
    match value {
        None => None,
        Some(v) => {
            let t = trim_str(v.as_str());
            if t.as_str().is_empty() || is_all_stars(t.as_str()) {
                None
            } else {
                Some(t)
            }
        },
    }
}

// ------------------------------------------------------------------------
// Colon-separated text.
// ------------------------------------------------------------------------
/// The pieces of `s` between colons, as `str::split(':')` yields them.
pub open spec fn split_colon(s: Seq<char>) -> Seq<Seq<char>>
    decreases s.len(),
{
    if s.len() == 0 {
        seq![seq![]]
    } else {
        let prev = split_colon(s.drop_last());
        if s.last() == ':' {
            prev.push(seq![])
        } else {
            prev.update(prev.len() - 1, prev.last().push(s.last()))
        }
    }
}

proof fn lemma_split_nonempty(s: Seq<char>)
    ensures
        split_colon(s).len() >= 1,
    decreases s.len(),
{
    if s.len() > 0 {
        lemma_split_nonempty(s.drop_last());
    }
}

/// Appending colon-free text extends the last piece.
proof fn lemma_split_extend(x: Seq<char>, b: Seq<char>)
    requires
        !b.contains(':'),
    ensures
        split_colon(x + b).len() == split_colon(x).len(),
        split_colon(x + b) == split_colon(x).update(
            split_colon(x).len() - 1,
            split_colon(x).last() + b,
        ),
    decreases b.len(),
{
    lemma_split_nonempty(x);
    if b.len() == 0 {
        assert(x + b =~= x);
        assert(split_colon(x).last() + b =~= split_colon(x).last());
        assert(split_colon(x).update(split_colon(x).len() - 1, split_colon(x).last())
            =~= split_colon(x));
    } else {
        let b0 = b.drop_last();
        assert(!b0.contains(':')) by {
            if b0.contains(':') {
                let i = choose|i: int| 0 <= i < b0.len() && b0[i] == ':';
                assert(b[i] == ':');
            }
        }
        lemma_split_extend(x, b0);
        assert((x + b).drop_last() =~= x + b0);
        assert((x + b).last() == b.last());
        assert(b.last() != ':') by {
            assert(b[b.len() - 1] == b.last());
        }
        assert(split_colon(x).last() + b =~= (split_colon(x).last() + b0).push(b.last()));
        assert(split_colon(x + b) =~= split_colon(x).update(
            split_colon(x).len() - 1,
            split_colon(x).last() + b,
        ));
    }
}

/// A colon followed by colon-free text adds one piece.
proof fn lemma_split_append_piece(x: Seq<char>, b: Seq<char>)
    requires
        !b.contains(':'),
    ensures
        split_colon(x + seq![':'] + b) == split_colon(x).push(b),
{
    let xc = x + seq![':'];
    assert(xc.drop_last() =~= x);
    assert(split_colon(xc) == split_colon(x).push(seq![]));
    lemma_split_extend(xc, b);
    assert(seq![] + b =~= b);
    assert(split_colon(x).push(seq![]).update(split_colon(x).len() as int, b)
        =~= split_colon(x).push(b));
}

/// Colon-free text is one piece.
proof fn lemma_split_single(b: Seq<char>)
    requires
        !b.contains(':'),
    ensures
        split_colon(b) == seq![b],
{
    let e: Seq<char> = seq![];
    lemma_split_extend(e, b);
    assert(e + b =~= b);
    assert(split_colon(e) == seq![e]);
    assert(e + b =~= b);
    assert(seq![e].update(0, e + b) =~= seq![b]);
}

/// The pieces of a string between colons.
fn split_on_colons(s: &str) -> (r: Vec<String>)
    ensures
        r@.map_values(|p: String| p@) == split_colon(s@),
{
    let cs = chars_of(s);
    let mut parts: Vec<String> = Vec::new();
    let mut current = String::new();
    let mut i: usize = 0;
    proof {
        assert(cs@.subrange(0, 0) =~= Seq::<char>::empty());
    }
    while i < cs.len()
        invariant
            cs@ == s@,
            0 <= i <= cs@.len(),
            parts@.map_values(|p: String| p@).push(current@) == split_colon(cs@.subrange(0, i as int)),
        decreases cs@.len() - i,
    {
        let c = cs[i];
        let ghost prefix = cs@.subrange(0, i as int);
        let ghost next = cs@.subrange(0, i + 1);
        proof {
            assert(next.drop_last() =~= prefix);
            assert(next.last() == c);
            lemma_split_nonempty(prefix);
        }
        if c == ':' {
            let done = current;
            parts.push(done);
            current = String::new();
            proof {
                assert(parts@.map_values(|p: String| p@).push(current@)
                    =~= split_colon(prefix).push(seq![]));
            }
        } else {
            crate::text::push_char(&mut current, c);
            proof {
                let old_seq = split_colon(prefix);
                assert(parts@.map_values(|p: String| p@).push(current@)
                    =~= old_seq.update(old_seq.len() - 1, old_seq.last().push(c)));
            }
        }
        i += 1;
    }
    proof {
        assert(cs@.subrange(0, cs@.len() as int) =~= cs@);
    }
    parts.push(current);
    parts
}

// ------------------------------------------------------------------------
// Keys at rest.
// ------------------------------------------------------------------------
/// Whether `text` is the unpadded base64 of some bytes.
pub open spec fn b64_decodes(text: Seq<char>) -> bool {
    exists|b: Seq<u8>| b64_encode(b) == text
}

/// The bytes `text` encodes (the only ones, where `b64_decodes(text)`).
pub open spec fn b64_decoded(text: Seq<char>) -> Seq<u8> {
    choose|b: Seq<u8>| b64_encode(b) == text
}

/// The stored form of a sealed key: the version prefix, the nonce and the
/// sealed bytes, separated by colons.
pub open spec fn sealed_text(nonce: Seq<u8>, sealed: Seq<u8>) -> Seq<char> {
    SECRET_CIPHERTEXT_PREFIX@ + ":"@ + b64_encode(nonce) + ":"@ + b64_encode(sealed)
}

/// The nonce and sealed bytes of a stored key, or why it cannot be read.
pub open spec fn sealed_parts(value: Seq<char>) -> Result<(Seq<u8>, Seq<u8>), Seq<char>> {
    let parts = split_colon(value);
    if parts.len() < 2 || parts[0] != "ngenc"@ || parts[1] != "v1"@ || parts.len() > 4 {
        Err("stored BYOK key format is unsupported"@)
    } else if parts.len() < 3 {
        Err("stored BYOK key nonce is missing"@)
    } else if parts.len() < 4 {
        Err("stored BYOK ciphertext is missing"@)
    } else if !b64_decodes(parts[2]) {
        Err("stored BYOK key nonce is invalid"@)
    } else if b64_decoded(parts[2]).len() != 12 {
        Err("stored BYOK key nonce length is invalid"@)
    } else if !b64_decodes(parts[3]) {
        Err("stored BYOK ciphertext is invalid"@)
    } else {
        Ok((b64_decoded(parts[2]), b64_decoded(parts[3])))
    }
}

/// The key text that sealed bytes open to, or why they do not.
pub open spec fn opened_plaintext(key: Seq<u8>, nonce: Seq<u8>, sealed: Seq<u8>) -> Result<
    Seq<char>,
    Seq<char>,
> {
    match aes_256_gcm_open(key, nonce, sealed) {
        None => Err("failed to decrypt stored BYOK key"@),
        Some(p) => if valid_utf8(p) {
            Ok(decode_utf8(p))
        } else {
            Err("stored BYOK key is not valid UTF-8"@)
        },
    }
}

/// The key text a stored value opens to under `key`, or why it does not.
pub open spec fn opened_secret(key: Seq<u8>, value: Seq<char>) -> Result<Seq<char>, Seq<char>> {
    match sealed_parts(value) {
        Err(m) => Err(m),
        Ok((nonce, sealed)) => opened_plaintext(key, nonce, sealed),
    }
}

/// `r` is the value `expected` gives, or a `500 internal_error` whose message
/// `expected` gives.
pub open spec fn answers_internal<T>(r: Result<T, ApiError>, expected: Result<T, Seq<char>>) -> bool {
    match r {
        Ok(v) => expected == Ok::<T, Seq<char>>(v),
        Err(e) => is_internal(e, e.message@) && expected == Err::<T, Seq<char>>(e.message@),
    }
}

pub open spec fn bytes_pair_view(r: Result<(Vec<u8>, Vec<u8>), ApiError>) -> Result<(Seq<u8>, Seq<u8>), ApiError> {
    match r {
        Ok((a, b)) => Ok((a@, b@)),
        Err(e) => Err(e),
    }
}

pub open spec fn string_result_view(r: Result<String, ApiError>) -> Result<Seq<char>, ApiError> {
    match r {
        Ok(v) => Ok(v@),
        Err(e) => Err(e),
    }
}

proof fn lemma_decoded_unique(text: Seq<char>, b: Seq<u8>)
    requires
        b64_encode(b) == text,
    ensures
        b64_decodes(text),
        b64_decoded(text) == b,
{
    let c = b64_decoded(text);
    lemma_b64_injective(c, b);
}

/// Reads the nonce and the sealed bytes out of a stored key.
pub fn parse_sealed_secret(value: &str) -> (r: Result<(Vec<u8>, Vec<u8>), ApiError>)
    ensures
        answers_internal(bytes_pair_view(r), sealed_parts(value@)),
{
    let parts = split_on_colons(value);
    let ghost views = parts@.map_values(|p: String| p@);
    proof {
        reveal_strlit("ngenc");
        reveal_strlit("v1");
        lemma_split_nonempty(value@);
        assert(views.len() == parts@.len());
    }
    if parts.len() < 2 || !str_eq(parts[0].as_str(), "ngenc") || !str_eq(parts[1].as_str(), "v1")
        || parts.len() > 4 {
        proof {
            if parts.len() >= 2 {
                assert(views[0] == parts@[0]@);
                assert(views[1] == parts@[1]@);
            }
        }
        return Err(ApiError::internal(owned("stored BYOK key format is unsupported")));
    }
    proof {
        assert(views[0] == parts@[0]@);
        assert(views[1] == parts@[1]@);
    }
    if parts.len() < 3 {
        return Err(ApiError::internal(owned("stored BYOK key nonce is missing")));
    }
    if parts.len() < 4 {
        return Err(ApiError::internal(owned("stored BYOK ciphertext is missing")));
    }
    proof {
        assert(views[2] == parts@[2]@);
        assert(views[3] == parts@[3]@);
    }
    let nonce = match b64_decode_text(parts[2].as_str()) {
        Some(n) => n,
        None => return Err(ApiError::internal(owned("stored BYOK key nonce is invalid"))),
    };
    proof {
        lemma_decoded_unique(views[2], nonce@);
    }
    if nonce.len() != 12 {
        return Err(ApiError::internal(owned("stored BYOK key nonce length is invalid")));
    }
    let sealed = match b64_decode_text(parts[3].as_str()) {
        Some(c) => c,
        None => return Err(ApiError::internal(owned("stored BYOK ciphertext is invalid"))),
    };
    proof {
        lemma_decoded_unique(views[3], sealed@);
    }
    Ok((nonce, sealed))
}

/// Opens sealed bytes under the key and reads them as the key text.
pub fn open_sealed_secret(key: &Vec<u8>, nonce: &Vec<u8>, sealed: &Vec<u8>) -> (r: Result<String, ApiError>)
    requires
        key@.len() == 32,
        nonce@.len() == 12,
    ensures
        answers_internal(string_result_view(r), opened_plaintext(key@, nonce@, sealed@)),
{
    let plaintext = match open_aes_256_gcm(key.as_slice(), nonce.as_slice(), sealed.as_slice()) {
        Some(p) => p,
        None => return Err(ApiError::internal(owned("failed to decrypt stored BYOK key"))),
    };
    match utf8_to_string(plaintext) {
        Some(text) => Ok(text),
        None => Err(ApiError::internal(owned("stored BYOK key is not valid UTF-8"))),
    }
}

/// The key text a stored value opens to under `key`.
pub fn open_secret(key: &Vec<u8>, value: &str) -> (r: Result<String, ApiError>)
    requires
        key@.len() == 32,
    ensures
        answers_internal(string_result_view(r), opened_secret(key@, value@)),
{
    let (nonce, sealed) = match parse_sealed_secret(value) {
        Ok(p) => p,
        Err(e) => return Err(e),
    };
    open_sealed_secret(key, &nonce, &sealed)
}

/// The stored form of a sealed key splits into its four pieces.
proof fn lemma_sealed_text_parts(nonce: Seq<u8>, sealed: Seq<u8>)
    ensures
        split_colon(sealed_text(nonce, sealed)) == seq![
            "ngenc"@,
            "v1"@,
            b64_encode(nonce),
            b64_encode(sealed),
        ],
{
    reveal_strlit("ngenc:v1");
    reveal_strlit("ngenc");
    reveal_strlit("v1");
    reveal_strlit(":");
    let n = b64_encode(nonce);
    let c = b64_encode(sealed);
    lemma_b64_no_colon(nonce);
    lemma_b64_no_colon(sealed);
    let ngenc = "ngenc"@;
    let v1 = "v1"@;
    assert(!ngenc.contains(':')) by {
        if ngenc.contains(':') {
            let i = choose|i: int| 0 <= i < ngenc.len() && ngenc[i] == ':';
            assert(ngenc[i] != ':');
        }
    }
    assert(!v1.contains(':')) by {
        if v1.contains(':') {
            let i = choose|i: int| 0 <= i < v1.len() && v1[i] == ':';
            assert(v1[i] != ':');
        }
    }
    lemma_split_single(ngenc);
    lemma_split_append_piece(ngenc, v1);
    let head = ngenc + seq![':'] + v1;
    assert(head =~= SECRET_CIPHERTEXT_PREFIX@);
    lemma_split_append_piece(head, n);
    lemma_split_append_piece(head + seq![':'] + n, c);
    assert(sealed_text(nonce, sealed) =~= head + seq![':'] + n + seq![':'] + c);
    assert(seq![ngenc].push(v1).push(n).push(c) =~= seq![ngenc, v1, n, c]);
}

/// Seals a key text under the key with the given nonce.
pub fn seal_secret_with_nonce(key: &Vec<u8>, nonce: &Vec<u8>, secret: &str) -> (r: Result<String, ApiError>)
    requires
        key@.len() == 32,
        nonce@.len() == 12,
        b64_fits(encode_utf8(secret@).len() + 16int),
    ensures
        r is Ok <==> encode_utf8(secret@).len() <= aes_gcm_max_input(),
        r matches Ok(v) ==> v@ == sealed_text(
            nonce@,
            aes_256_gcm_seal(key@, nonce@, encode_utf8(secret@)),
        ),
        r matches Ok(v) ==> opened_secret(key@, v@) == Ok::<Seq<char>, Seq<char>>(secret@),
        r matches Err(e) ==> is_internal(e, "failed to encrypt BYOK key"@),
{
    let plaintext = secret.as_bytes();
    let sealed = match seal_aes_256_gcm(key.as_slice(), nonce.as_slice(), plaintext) {
        Some(c) => c,
        None => return Err(ApiError::internal(owned("failed to encrypt BYOK key"))),
    };
    let nonce_text = b64_encode_bytes(nonce.as_slice());
    let sealed_text_part = b64_encode_bytes(sealed.as_slice());
    let mut out = owned(SECRET_CIPHERTEXT_PREFIX);
    push_str(&mut out, ":");
    push_str(&mut out, nonce_text.as_str());
    push_str(&mut out, ":");
    push_str(&mut out, sealed_text_part.as_str());
    proof {
        let v = out@;
        assert(v =~= sealed_text(nonce@, sealed@));
        lemma_sealed_text_parts(nonce@, sealed@);
        let parts = split_colon(v);
        assert(parts[0] == "ngenc"@ && parts[1] == "v1"@);
        lemma_decoded_unique(parts[2], nonce@);
        lemma_decoded_unique(parts[3], sealed@);
        assert(sealed_parts(v) == Ok::<(Seq<u8>, Seq<u8>), Seq<char>>((nonce@, sealed@)));
        vstd::utf8::encode_utf8_valid_utf8(secret@);
        vstd::utf8::encode_utf8_decode_utf8(secret@);
    }
    Ok(out)
}

/// Sealing then opening gives the key text back: for any key, 12-byte nonce and key
/// text, stored as `sealed_text` of bytes that open under the key and nonce
/// to the text's UTF-8 bytes (as every sealing by `seal_aes_256_gcm` does),
/// opening the stored text gives the key text; the stored text starts with
/// `ngenc:v1:` and splits at colons into four pieces.
pub proof fn lemma_sealed_secret_opens(key: Seq<u8>, nonce: Seq<u8>, sealed: Seq<u8>, secret: Seq<char>)
    requires
        nonce.len() == 12,
        aes_256_gcm_open(key, nonce, sealed) == Some(encode_utf8(secret)),
    ensures
        opened_secret(key, sealed_text(nonce, sealed)) == Ok::<Seq<char>, Seq<char>>(secret),
        split_colon(sealed_text(nonce, sealed)).len() == 4,
        sealed_text(nonce, sealed).take(9) == "ngenc:v1:"@,
{
    let v = sealed_text(nonce, sealed);
    lemma_sealed_text_parts(nonce, sealed);
    let parts = split_colon(v);
    assert(parts[0] == "ngenc"@ && parts[1] == "v1"@);
    lemma_decoded_unique(parts[2], nonce);
    lemma_decoded_unique(parts[3], sealed);
    assert(sealed_parts(v) == Ok::<(Seq<u8>, Seq<u8>), Seq<char>>((nonce, sealed)));
    vstd::utf8::encode_utf8_valid_utf8(secret);
    vstd::utf8::encode_utf8_decode_utf8(secret);
    reveal_strlit("ngenc:v1");
    reveal_strlit(":");
    reveal_strlit("ngenc:v1:");
    assert(v.take(9) =~= "ngenc:v1:"@);
}

/// Seals a key text under the key with a fresh random nonce.
pub fn seal_secret(key: &Vec<u8>, secret: &str) -> (r: Result<String, ApiError>)
    requires
        key@.len() == 32,
        b64_fits(encode_utf8(secret@).len() + 16int),
    ensures
        encode_utf8(secret@).len() > aes_gcm_max_input() ==> r is Err,
        r matches Ok(v) ==> exists|nonce: Seq<u8>|
            nonce.len() == 12 && v@ == sealed_text(
                nonce,
                aes_256_gcm_seal(key@, nonce, encode_utf8(secret@)),
            ),
        r matches Ok(v) ==> opened_secret(key@, v@) == Ok::<Seq<char>, Seq<char>>(secret@),
        r matches Err(e) ==> is_internal(e, "failed to generate BYOK encryption nonce"@)
            || is_internal(e, "failed to encrypt BYOK key"@),
{
    let nonce = match random_bytes(12) {
        Some(n) => n,
        None => return Err(ApiError::internal(owned("failed to generate BYOK encryption nonce"))),
    };
    seal_secret_with_nonce(key, &nonce, secret)
}

// ------------------------------------------------------------------------
// The encryption key.
// ------------------------------------------------------------------------
/// A short, stable fingerprint of a key text: the base64 of the first nine
/// bytes of its SHA-256 digest.
pub fn secret_fingerprint(secret: &str) -> (r: String)
    requires
        encode_utf8(secret@).len() < 0x2000_0000_0000_0000,
    ensures
        r@ == b64_encode(sha256(encode_utf8(secret@)).subrange(0, 9)),
{
    let digest = sha256_digest(secret.as_bytes());
    let head = vstd::slice::slice_subrange(digest.as_slice(), 0, 9);
    b64_encode_bytes(head)
}

/// The encryption key derived from a configured passphrase: its SHA-256 digest.
pub fn key_from_passphrase(passphrase: &str) -> (r: Vec<u8>)
    requires
        encode_utf8(passphrase@).len() < 0x2000_0000_0000_0000,
    ensures
        r@ == sha256(encode_utf8(passphrase@)),
        r@.len() == 32,
{
    sha256_digest(passphrase.as_bytes())
}

/// Where the encryption key of stored provider keys comes from: the
/// configured passphrase, or else the key file at this path.
#[derive(Debug)]
pub enum SecretKeySource {
    Passphrase(Vec<u8>),
    KeyFile(String),
}

/// The key source of a configuration: a configured passphrase gives its
/// SHA-256 digest as the key; without one, the key lives in the key file.
pub fn secret_key_source(config: &crate::config::AppConfig) -> (r: SecretKeySource)
    requires
        config.secrets_encryption_key matches Some(k) ==> encode_utf8(k@).len() < 0x2000_0000_0000_0000,
    ensures
        match config.secrets_encryption_key {
            Some(k) => r matches SecretKeySource::Passphrase(key) && key@ == sha256(encode_utf8(k@)),
            None => r matches SecretKeySource::KeyFile(path) && path@ == config.secrets_key_path@,
        },
{
    match &config.secrets_encryption_key {
        Some(k) => SecretKeySource::Passphrase(key_from_passphrase(k.as_str())),
        None => SecretKeySource::KeyFile(config.secrets_key_path.clone()),
    }
}

/// What a key file's text gives: the 32 bytes its trimmed text encodes.
pub open spec fn stored_key(text: Seq<char>) -> Result<Seq<u8>, Seq<char>> {
    if !b64_decodes(trim(text)) {
        Err("local BYOK encryption key is invalid"@)
    } else if b64_decoded(trim(text)).len() != 32 {
        Err("local BYOK encryption key length is invalid"@)
    } else {
        Ok(b64_decoded(trim(text)))
    }
}

pub open spec fn bytes_result_view(r: Result<Vec<u8>, ApiError>) -> Result<Seq<u8>, ApiError> {
    match r {
        Ok(v) => Ok(v@),
        Err(e) => Err(e),
    }
}

/// Reads the encryption key from the text of the key file.
pub fn key_from_stored_text(text: &str) -> (r: Result<Vec<u8>, ApiError>)
    ensures
        answers_internal(bytes_result_view(r), stored_key(text@)),
        r matches Ok(k) ==> k@.len() == 32,
{
    let trimmed = trim_str(text);
    let key = match b64_decode_text(trimmed.as_str()) {
        Some(k) => k,
        None => return Err(ApiError::internal(owned("local BYOK encryption key is invalid"))),
    };
    proof {
        lemma_decoded_unique(trim(text@), key@);
    }
    if key.len() != 32 {
        return Err(ApiError::internal(owned("local BYOK encryption key length is invalid")));
    }
    Ok(key)
}

/// A fresh random encryption key.
pub fn generate_secret_key() -> (r: Result<Vec<u8>, ApiError>)
    ensures
        r matches Ok(k) ==> k@.len() == 32,
        r matches Err(e) ==> is_internal(e, "failed to generate local BYOK encryption key"@),
{
    match random_bytes(32) {
        Some(k) => Ok(k),
        None => Err(ApiError::internal(owned("failed to generate local BYOK encryption key"))),
    }
}

/// The text a key file holds for a key; `key_from_stored_text` reads it back.
pub fn encode_secret_key(key: &Vec<u8>) -> (r: String)
    requires
        key@.len() == 32,
    ensures
        r@ == b64_encode(key@),
        stored_key(r@) == Ok::<Seq<u8>, Seq<char>>(key@),
{
    let text = b64_encode_bytes(key.as_slice());
    proof {
        lemma_b64_trimmed(key@);
        lemma_decoded_unique(b64_encode(key@), key@);
    }
    text
}

/// Base64 text has no whitespace, so trimming leaves it as it is.
proof fn lemma_b64_trimmed(b: Seq<u8>)
    ensures
        trim(b64_encode(b)) == b64_encode(b),
{
    lemma_b64_no_ws(b);
    let t = b64_encode(b);
    crate::text::lemma_trim_no_ws(t);
}

proof fn lemma_b64_no_ws(b: Seq<u8>)
    ensures
        forall|i: int| 0 <= i < b64_encode(b).len() ==> !crate::text::is_ws(#[trigger] b64_encode(b)[i]),
{
    crate::crypto::lemma_b64_chars(b);
    assert forall|i: int| 0 <= i < b64_encode(b).len() implies !crate::text::is_ws(
        #[trigger] b64_encode(b)[i],
    ) by {
        assert(crate::crypto::is_b64_char(b64_encode(b)[i]));
    }
}

// ------------------------------------------------------------------------
// Saving and checking a configuration.
// ------------------------------------------------------------------------
/// What saving a provider configuration stores, once the input is checked.
#[derive(Debug)]
pub struct ByokSavePlan {
    pub provider: String,
    pub display_name: String,
    pub base_url: String,
    pub model: String,
    pub api_format: String,
    /// The key to seal and store; none for a session-only configuration.
    pub api_key: Option<String>,
}

/// The first complaint about the provider, base URL and model of a form.
pub open spec fn form_error(provider: Seq<char>, base_url: Seq<char>, model: Seq<char>) -> Option<
    Seq<char>,
> {
    match provider_checked(provider) {
        Err(m) => Some(m),
        Ok(_) => match url_checked(base_url) {
            Err(m) => Some(m),
            Ok(_) => match required(model, "model"@) {
                Err(m) => Some(m),
                Ok(_) => None,
            },
        },
    }
}

/// `e` is a `400 invalid_request` with the message `message`.
pub open spec fn is_bad_request(e: ApiError, message: Seq<char>) -> bool {
    e.status == 400 && e.code@ == "invalid_request"@ && e.message@ == message
}

/// Checks a save form and decides what to store.
pub fn plan_save_config(input: &SaveByokProviderConfigInput) -> (r: Result<ByokSavePlan, ApiError>)
    ensures
        match r {
            Ok(plan) => {
                &&& form_error(input.provider@, input.base_url@, input.model@) is None
                &&& provider_checked(input.provider@) == Ok::<Seq<char>, Seq<char>>(plan.provider@)
                &&& url_checked(input.base_url@) == Ok::<Seq<char>, Seq<char>>(plan.base_url@)
                &&& required(input.model@, "model"@) == Ok::<Seq<char>, Seq<char>>(plan.model@)
                &&& plan.display_name@ == field_or_preset(
                    None,
                    preset_name(plan.provider@),
                    plan.provider@,
                )
                &&& plan.api_format@ == field_or_preset(
                    None,
                    preset_api_format(plan.provider@),
                    "openai"@,
                )
                &&& opt_view(plan.api_key) == (if input.session_only {
                    None
                } else {
                    api_key_given(opt_view(input.api_key))
                })
            },
            Err(e) => form_error(input.provider@, input.base_url@, input.model@) matches Some(m)
                && is_bad_request(e, m),
        },
{
    let provider = match normalized_provider(input.provider.as_str()) {
        Ok(p) => p,
        Err(e) => return Err(e),
    };
    let base_url = match normalized_url(input.base_url.as_str()) {
        Ok(u) => u,
        Err(e) => return Err(e),
    };
    let model = match require_text(input.model.as_str(), "model") {
        Ok(m) => m,
        Err(e) => return Err(e),
    };
    let preset = provider_preset(provider.as_str());
    let (display_name, api_format) = match preset {
        Some(p) => (p.name, p.api_format),
        None => (provider.clone(), owned("openai")),
    };
    let api_key = if input.session_only {
        None
    } else {
        optional_api_key(clone_opt(&input.api_key))
    };
    Ok(ByokSavePlan { provider, display_name, base_url, model, api_format, api_key })
}

/// What checking a key probes, once the input is checked.
#[derive(Debug)]
pub struct ByokCheckPlan {
    pub provider: String,
    pub base_url: String,
    pub model: String,
    /// The key given in the form; none means the stored key is to be used.
    pub api_key: Option<String>,
}

/// Checks a key-check form.
pub fn plan_check_key(input: &CheckByokProviderKeyInput) -> (r: Result<ByokCheckPlan, ApiError>)
    ensures
        match r {
            Ok(plan) => {
                &&& form_error(input.provider@, input.base_url@, input.model@) is None
                &&& provider_checked(input.provider@) == Ok::<Seq<char>, Seq<char>>(plan.provider@)
                &&& url_checked(input.base_url@) == Ok::<Seq<char>, Seq<char>>(plan.base_url@)
                &&& required(input.model@, "model"@) == Ok::<Seq<char>, Seq<char>>(plan.model@)
                &&& opt_view(plan.api_key) == api_key_given(opt_view(input.api_key))
            },
            Err(e) => form_error(input.provider@, input.base_url@, input.model@) matches Some(m)
                && is_bad_request(e, m),
        },
{
    let provider = match normalized_provider(input.provider.as_str()) {
        Ok(p) => p,
        Err(e) => return Err(e),
    };
    let base_url = match normalized_url(input.base_url.as_str()) {
        Ok(u) => u,
        Err(e) => return Err(e),
    };
    let model = match require_text(input.model.as_str(), "model") {
        Ok(m) => m,
        Err(e) => return Err(e),
    };
    let api_key = optional_api_key(clone_opt(&input.api_key));
    Ok(ByokCheckPlan { provider, base_url, model, api_key })
}

/// The sealed key a stored configuration holds, or `400` asking for a key.
pub fn stored_key_ref(record: Option<&ByokProviderConfigRecord>) -> (r: Result<String, ApiError>)
    ensures
        match r {
            Ok(v) => record matches Some(rec) && rec.encrypted_secret_ref == Some(v),
            Err(e) => is_bad_request(e, "API key is required"@) && match record {
                Some(rec) => rec.encrypted_secret_ref is None,
                None => true,
            },
        },
{
    match record {
        Some(rec) => match &rec.encrypted_secret_ref {
            Some(v) => Ok(v.clone()),
            None => Err(ApiError::bad_request(owned("API key is required"))),
        },
        None => Err(ApiError::bad_request(owned("API key is required"))),
    }
}

/// The answer to a save: the view of the stored record and whether a key was kept.
pub fn save_result(record: &ByokProviderConfigRecord, saved_api_key: bool) -> (r: SaveByokProviderConfigResult)
    ensures
        config_view_spec(Some(*record), r.config),
        r.saved_api_key == saved_api_key,
{
    SaveByokProviderConfigResult { config: config_view(Some(record)), saved_api_key }
}

// ------------------------------------------------------------------------
// Probing a key.
// ------------------------------------------------------------------------
/// The URL a key check requests: the model itself for Gemini, the model list
/// for other providers.
pub open spec fn probe_url_spec(provider: Seq<char>, base_url: Seq<char>, model: Seq<char>) -> Seq<char> {
    if provider == "gemini"@ {
        base_url + "/models/"@ + model
    } else {
        base_url + "/models"@
    }
}

pub fn probe_url(provider: &str, base_url: &str, model: &str) -> (r: String)
    ensures
        r@ == probe_url_spec(provider@, base_url@, model@),
{
    let mut url = owned(base_url);
    if str_eq(provider, "gemini") {
        push_str(&mut url, "/models/");
        push_str(&mut url, model);
    } else {
        push_str(&mut url, "/models");
    }
    url
}

/// What a probe's HTTP status (none when the request failed) says of the key.
pub open spec fn probe_verdict(status: Option<u16>) -> (bool, Seq<char>) {
    match status {
        Some(s) => if 200 <= s <= 299 {
            (true, "Provider accepted the API key"@)
        } else if s == 401 || s == 403 {
            (false, "Provider rejected the API key"@)
        } else {
            (false, "Provider returned a non-success status"@)
        },
        None => (false, "Provider health request failed"@),
    }
}

/// A key-health record.
pub fn byok_health(
    provider: &str,
    base_url: &str,
    model: &str,
    valid: bool,
    status_code: Option<u16>,
    message: &str,
    checked_at: String,
) -> (r: ByokProviderKeyHealth)
    ensures
        r.provider@ == provider@,
        r.base_url@ == base_url@,
        r.model@ == model@,
        r.valid == valid,
        r.status_code == status_code,
        r.message@ == message@,
        r.checked_at == checked_at,
{
    ByokProviderKeyHealth {
        provider: owned(provider),
        base_url: owned(base_url),
        model: owned(model),
        valid,
        status_code,
        message: owned(message),
        checked_at,
    }
}

/// The health a probe's outcome gives the key.
pub fn probe_health(
    provider: &str,
    base_url: &str,
    model: &str,
    status: Option<u16>,
    checked_at: String,
) -> (r: ByokProviderKeyHealth)
    ensures
        r.provider@ == provider@,
        r.base_url@ == base_url@,
        r.model@ == model@,
        (r.valid, r.message@) == probe_verdict(status),
        r.status_code == status,
        r.checked_at == checked_at,
{
    match status {
        Some(s) => if 200 <= s && s <= 299 {
            byok_health(provider, base_url, model, true, status, "Provider accepted the API key", checked_at)
        } else if s == 401 || s == 403 {
            byok_health(provider, base_url, model, false, status, "Provider rejected the API key", checked_at)
        } else {
            byok_health(
                provider,
                base_url,
                model,
                false,
                status,
                "Provider returned a non-success status",
                checked_at,
            )
        },
        None => byok_health(
            provider,
            base_url,
            model,
            false,
            None,
            "Provider health request failed",
            checked_at,
        ),
    }
}

/// The health of a key that could not be probed because no HTTP client could be set up.
pub fn client_setup_failed_health(provider: &str, base_url: &str, model: &str, checked_at: String) -> (r: ByokProviderKeyHealth)
    ensures
        r.provider@ == provider@,
        r.base_url@ == base_url@,
        r.model@ == model@,
        !r.valid,
        r.status_code is None,
        r.message@ == "HTTP client setup failed"@,
        r.checked_at == checked_at,
{
    byok_health(provider, base_url, model, false, None, "HTTP client setup failed", checked_at)
}

/// The health status stored after a check.
pub fn health_status_label(valid: bool) -> (r: &'static str)
    ensures
        r@ == if valid {
            "valid"@
        } else {
            "invalid"@
        },
{
    if valid {
        "valid"
    } else {
        "invalid"
    }
}

/// The label of a check time, `unix:` and the seconds since the epoch.
pub fn unix_timestamp_label(seconds: u64) -> (r: String)
    ensures
        r@ == "unix:"@ + crate::text::nat_digits(seconds as nat),
{
    let mut label = owned("unix:");
    let digits = crate::text::u64_to_string(seconds);
    push_str(&mut label, digits.as_str());
    label
}

} // verus!
