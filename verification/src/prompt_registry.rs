//! Versioned prompt templates and the `{name}` placeholder renderer.
use vstd::prelude::*;
use crate::text::{chars_of, has_prefix, matches_at, push_char, push_chars, push_str};

verus! {

#[derive(Debug, Clone, Copy, PartialEq, Eq)]
pub struct PromptTemplateSpec {
    pub id: &'static str,
    pub version: &'static str,
    pub purpose: &'static str,
    pub system_template: &'static str,
    pub user_template: &'static str,
    pub response_schema_json: Option<&'static str>,
}

pub const STORY_CHAPTER_CLOUD_EXTRACTION_PROMPT_ID: &'static str = "story_chapter_cloud_extraction";
pub const STORY_CHAPTER_CLOUD_EXTRACTION_PROMPT_VERSION: &'static str = "story_chapter_cloud_extraction.v2";
pub const STRUCTURED_JSON_REPAIR_PROMPT_ID: &'static str = "structured_json_repair";
pub const STRUCTURED_JSON_REPAIR_PROMPT_VERSION: &'static str = "structured_json_repair.v1";

pub const STORY_CHAPTER_CLOUD_EXTRACTION_PURPOSE: &'static str = "Extract chapter story graph facts for the Gemini cloud one-shot profile.";
pub const STRUCTURED_JSON_REPAIR_PURPOSE: &'static str = "Repair provider JSON syntax without changing extracted facts.";

pub const STORY_CHAPTER_CLOUD_EXTRACTION_SYSTEM: &'static str = "You extract story graph facts from exactly one current chapter of a novel.\nUse evidence from the current chapter only. Known character surfaces and known stable relationships may help you resolve names, but they are not evidence.\nDo not use future chapters or outside knowledge. Return one JSON object that matches the response schema and nothing else.\n";

pub const STORY_CHAPTER_CLOUD_EXTRACTION_USER: &'static str = "Schema version: {schema_version}\nPrompt: {prompt_id} ({prompt_version})\nCall profile: {call_profile}\nChapter number: {chapter_num}\nChapter title: {title}\nSource language: {source_language}\n\nNovel context:\n{novel_context}\n\nKnown character surfaces (JSON, from earlier chapters):\n{known_alias_surfaces_json}\n\nKnown stable relationships (JSON, from earlier chapters):\n{known_relationships_json}\n\nCurrent chapter source text:\n<<<CHAPTER_TEXT\n{chapter_text}\nCHAPTER_TEXT\n\nRules:\n- Extract characters, their aliases, appearance fields and the relationships between characters that this chapter states.\n- Reuse a known character surface when the chapter refers to the same person.\n- Field value is a compact display label, not a sentence.\n- Every field value and relationship needs at least one short quote copied from the chapter text.\n- Use schema_version \"{schema_version}\" and chapter_num {chapter_num} in the output.\n";

pub const STORY_CHAPTER_CLOUD_EXTRACTION_SCHEMA: &'static str = "{\"type\":\"OBJECT\",\"properties\":{\"schema_version\":{\"type\":\"STRING\"},\"chapter_num\":{\"type\":\"INTEGER\"},\"characters\":{\"type\":\"ARRAY\",\"items\":{\"type\":\"OBJECT\",\"properties\":{\"name\":{\"type\":\"STRING\"},\"aliases\":{\"type\":\"ARRAY\",\"items\":{\"type\":\"STRING\"}},\"fields\":{\"type\":\"ARRAY\",\"items\":{\"type\":\"OBJECT\",\"properties\":{\"field_key\":{\"type\":\"STRING\"},\"field_label\":{\"type\":\"STRING\"},\"value\":{\"type\":\"STRING\"},\"semantic_class\":{\"type\":\"STRING\"},\"confidence\":{\"type\":\"NUMBER\"},\"evidence_quotes\":{\"type\":\"ARRAY\",\"items\":{\"type\":\"STRING\"}}}}}},\"required\":[\"name\"]}},\"relationships\":{\"type\":\"ARRAY\",\"items\":{\"type\":\"OBJECT\",\"properties\":{\"source_name\":{\"type\":\"STRING\"},\"target_name\":{\"type\":\"STRING\"},\"relationship_type\":{\"type\":\"STRING\"},\"relationship_scope\":{\"type\":\"STRING\"},\"source_to_target_label\":{\"type\":\"STRING\"},\"target_to_source_label\":{\"type\":\"STRING\"},\"confidence\":{\"type\":\"NUMBER\"},\"evidence_quotes\":{\"type\":\"ARRAY\",\"items\":{\"type\":\"STRING\"}}}}},\"review_items\":{\"type\":\"ARRAY\",\"items\":{\"type\":\"STRING\"}}},\"required\":[\"schema_version\",\"chapter_num\",\"characters\",\"relationships\"]}";

pub const STRUCTURED_JSON_REPAIR_SYSTEM: &'static str = "Repair invalid JSON object output. Return valid JSON only. Do not add, remove or change extracted facts. Do not explain.\n";

pub const STRUCTURED_JSON_REPAIR_USER: &'static str = "Schema version: {schema_version}\n\nResponse schema:\n{response_schema_json}\n\nThe previous response was meant to be one JSON object that matches the schema but it failed parsing. Repair only syntax problems such as raw control characters inside strings, missing escaping, trailing text or malformed commas.\n\nInvalid response:\n<<<INVALID_JSON\n{invalid_json}\nINVALID_JSON\n";

pub fn story_chapter_cloud_extraction_template() -> (r: PromptTemplateSpec)
    ensures
        r == (PromptTemplateSpec {
            id: STORY_CHAPTER_CLOUD_EXTRACTION_PROMPT_ID,
            version: STORY_CHAPTER_CLOUD_EXTRACTION_PROMPT_VERSION,
            purpose: STORY_CHAPTER_CLOUD_EXTRACTION_PURPOSE,
            system_template: STORY_CHAPTER_CLOUD_EXTRACTION_SYSTEM,
            user_template: STORY_CHAPTER_CLOUD_EXTRACTION_USER,
            response_schema_json: Some(STORY_CHAPTER_CLOUD_EXTRACTION_SCHEMA),
        }),
{
    PromptTemplateSpec {
        id: STORY_CHAPTER_CLOUD_EXTRACTION_PROMPT_ID,
        version: STORY_CHAPTER_CLOUD_EXTRACTION_PROMPT_VERSION,
        purpose: STORY_CHAPTER_CLOUD_EXTRACTION_PURPOSE,
        system_template: STORY_CHAPTER_CLOUD_EXTRACTION_SYSTEM,
        user_template: STORY_CHAPTER_CLOUD_EXTRACTION_USER,
        response_schema_json: Some(STORY_CHAPTER_CLOUD_EXTRACTION_SCHEMA),
    }
}

pub fn structured_json_repair_template() -> (r: PromptTemplateSpec)
    ensures
        r == (PromptTemplateSpec {
            id: STRUCTURED_JSON_REPAIR_PROMPT_ID,
            version: STRUCTURED_JSON_REPAIR_PROMPT_VERSION,
            purpose: STRUCTURED_JSON_REPAIR_PURPOSE,
            system_template: STRUCTURED_JSON_REPAIR_SYSTEM,
            user_template: STRUCTURED_JSON_REPAIR_USER,
            response_schema_json: None,
        }),
{
    PromptTemplateSpec {
        id: STRUCTURED_JSON_REPAIR_PROMPT_ID,
        version: STRUCTURED_JSON_REPAIR_PROMPT_VERSION,
        purpose: STRUCTURED_JSON_REPAIR_PURPOSE,
        system_template: STRUCTURED_JSON_REPAIR_SYSTEM,
        user_template: STRUCTURED_JSON_REPAIR_USER,
        response_schema_json: None,
    }
}

/// `s` with every occurrence of `p` (scanned left to right, not overlapping)
/// replaced by `r`, as `str::replace` does for a non-empty pattern.
pub open spec fn replace_all(s: Seq<char>, p: Seq<char>, r: Seq<char>) -> Seq<char>
    decreases s.len(),
{
    if p.len() == 0 || s.len() == 0 {
        s
    } else if has_prefix(s, p) {
        r + replace_all(s.skip(p.len() as int), p, r)
    } else {
        seq![s[0]] + replace_all(s.drop_first(), p, r)
    }
}

/// `s.replace(p, r)` for a non-empty pattern.
pub fn replace_chars(s: &Vec<char>, p: &Vec<char>, r: &str) -> (out: String)
    requires
        p@.len() > 0,
    ensures
        out@ == replace_all(s@, p@, r@),
{
    let mut out = String::new();
    let mut i: usize = 0;
    proof {
        assert(s@.skip(0) =~= s@);
    }
    while i < s.len()
        invariant
            p@.len() > 0,
            0 <= i <= s@.len(),
            replace_all(s@, p@, r@) == out@ + replace_all(s@.skip(i as int), p@, r@),
        decreases s@.len() - i,
    {
        let ghost rest = s@.skip(i as int);
        if matches_at(s, p, i) {
            proof {
                assert(rest.subrange(0, p@.len() as int) =~= s@.subrange(i as int, i + p@.len()));
                assert(rest.skip(p@.len() as int) =~= s@.skip(i + p@.len()));
            }
            push_str(&mut out, r);
            i += p.len();
        } else {
            proof {
                if p@.len() <= rest.len() {
                    assert(rest.subrange(0, p@.len() as int) =~= s@.subrange(
                        i as int,
                        i + p@.len(),
                    ));
                }
                assert(rest.drop_first() =~= s@.skip(i + 1));
                assert(rest[0] == s@[i as int]);
            }
            push_char(&mut out, s[i]);
            i += 1;
        }
    }
    proof {
        assert(s@.skip(i as int).len() == 0);
    }
    out
}

/// The placeholder `{name}`.
pub open spec fn placeholder(name: Seq<char>) -> Seq<char> {
    seq!['{'] + name + seq!['}']
}

/// The template after replacing the placeholders of the first `n` variables,
/// one variable after the other.
pub open spec fn render_first(template: Seq<char>, variables: Seq<(Seq<char>, Seq<char>)>, n: int) -> Seq<
    char,
>
    decreases n,
{
    if n <= 0 {
        template
    } else {
        replace_all(
            render_first(template, variables, n - 1),
            placeholder(variables[n - 1].0),
            variables[n - 1].1,
        )
    }
}

/// The views of `(name, value)` pairs.
pub open spec fn pair_views(v: Seq<(&str, &str)>) -> Seq<(Seq<char>, Seq<char>)> {
    v.map_values(|p: (&str, &str)| (p.0@, p.1@))
}

/// Replaces `{name}` with `value` for each `(name, value)` in turn.
pub fn render_prompt_template(template: &str, variables: &[(&str, &str)]) -> (r: String)
    ensures
        r@ == render_first(template@, pair_views(variables@), variables@.len() as int),
{
    let mut rendered = chars_of(template);
    let mut k: usize = 0;
    while k < variables.len()
        invariant
            0 <= k <= variables@.len(),
            rendered@ == render_first(template@, pair_views(variables@), k as int),
        decreases variables@.len() - k,
    {
        let (name, value) = variables[k];
        let mut placeholder_str = String::new();
        push_char(&mut placeholder_str, '{');
        push_str(&mut placeholder_str, name);
        push_char(&mut placeholder_str, '}');
        let pc = chars_of(placeholder_str.as_str());
        proof {
            assert(variables@[k as int] == (name, value));
            assert(pair_views(variables@)[k as int] == (name@, value@));
            assert(pc@ =~= placeholder(name@));
        }
        let next = replace_chars(&rendered, &pc, value);
        rendered = chars_of(next.as_str());
        k += 1;
    }
    crate::text::string_of(&rendered)
}

} // verus!
