//! Prompts for the Gemini one-shot chapter extraction and for JSON repair,
//! rendered from the versioned templates of the prompt registry.
use vstd::prelude::*;
use crate::prompt_registry::{
    pair_views, render_first, render_prompt_template, story_chapter_cloud_extraction_template,
    structured_json_repair_template, STORY_CHAPTER_CLOUD_EXTRACTION_PROMPT_ID,
    STORY_CHAPTER_CLOUD_EXTRACTION_PROMPT_VERSION, STORY_CHAPTER_CLOUD_EXTRACTION_SCHEMA,
    STORY_CHAPTER_CLOUD_EXTRACTION_SYSTEM, STORY_CHAPTER_CLOUD_EXTRACTION_USER,
    STRUCTURED_JSON_REPAIR_PROMPT_ID, STRUCTURED_JSON_REPAIR_PROMPT_VERSION,
    STRUCTURED_JSON_REPAIR_SYSTEM, STRUCTURED_JSON_REPAIR_USER,
};
use crate::text::{
    all_ws, i64_to_string, int_decimal, is_ws, lemma_trim_padded, opt_view, trim, trim_start, trim_str,
    trimmed_or, trimmed_or_default,
};

verus! {

pub const CLOUD_CHAPTER_EXTRACTION_SCHEMA_VERSION: &'static str = "story_chapter_cloud_extraction.v2";
pub const CLOUD_GEMINI_ONE_SHOT_CALL_PROFILE: &'static str = "cloud_gemini_one_shot";

pub const DEFAULT_CHAPTER_TITLE: &'static str = "Untitled chapter";
pub const DEFAULT_SOURCE_LANGUAGE: &'static str = "unknown";
pub const DEFAULT_NOVEL_CONTEXT: &'static str = "No novel context provided.";
pub const EMPTY_JSON_ARRAY: &'static str = "[]";

#[derive(Debug, Clone, PartialEq, Eq)]
pub struct CloudChapterExtractionPrompt {
    pub schema_version: &'static str,
    pub template_id: &'static str,
    pub template_version: &'static str,
    pub call_profile: &'static str,
    pub response_schema_json: &'static str,
    pub system_prompt: String,
    pub user_prompt: String,
}

#[derive(Debug, Clone, PartialEq, Eq)]
pub struct CloudChapterExtractionInput {
    pub chapter_num: i64,
    pub title: Option<String>,
    pub source_language: Option<String>,
    pub chapter_text: String,
    pub novel_context: Option<String>,
    pub known_alias_surfaces_json: Option<String>,
    pub known_relationships_json: Option<String>,
}

#[derive(Debug, Clone, PartialEq, Eq)]
pub struct StructuredJsonRepairPrompt {
    pub template_id: &'static str,
    pub template_version: &'static str,
    pub system_prompt: String,
    pub user_prompt: String,
}

/// The values filled into the chapter extraction template, in order.
pub open spec fn cloud_prompt_variables(input: CloudChapterExtractionInput) -> Seq<
    (Seq<char>, Seq<char>),
> {
    seq![
        ("schema_version"@, CLOUD_CHAPTER_EXTRACTION_SCHEMA_VERSION@),
        ("prompt_id"@, STORY_CHAPTER_CLOUD_EXTRACTION_PROMPT_ID@),
        ("prompt_version"@, STORY_CHAPTER_CLOUD_EXTRACTION_PROMPT_VERSION@),
        ("call_profile"@, CLOUD_GEMINI_ONE_SHOT_CALL_PROFILE@),
        ("chapter_num"@, int_decimal(input.chapter_num as int)),
        ("title"@, trimmed_or(opt_view(input.title), DEFAULT_CHAPTER_TITLE@)),
        ("source_language"@, trimmed_or(opt_view(input.source_language), DEFAULT_SOURCE_LANGUAGE@)),
        ("novel_context"@, trimmed_or(opt_view(input.novel_context), DEFAULT_NOVEL_CONTEXT@)),
        ("known_alias_surfaces_json"@, trimmed_or(
            opt_view(input.known_alias_surfaces_json),
            EMPTY_JSON_ARRAY@,
        )),
        ("known_relationships_json"@, trimmed_or(
            opt_view(input.known_relationships_json),
            EMPTY_JSON_ARRAY@,
        )),
        ("chapter_text"@, input.chapter_text@),
    ]
}

/// Builds the Gemini one-shot extraction prompt for one chapter.
pub fn build_story_chapter_cloud_extraction_prompt(input: &CloudChapterExtractionInput) -> (r:
    CloudChapterExtractionPrompt)
    ensures
        r.schema_version@ == CLOUD_CHAPTER_EXTRACTION_SCHEMA_VERSION@,
        r.template_id@ == STORY_CHAPTER_CLOUD_EXTRACTION_PROMPT_ID@,
        r.template_version@ == STORY_CHAPTER_CLOUD_EXTRACTION_PROMPT_VERSION@,
        r.call_profile@ == CLOUD_GEMINI_ONE_SHOT_CALL_PROFILE@,
        r.response_schema_json@ == STORY_CHAPTER_CLOUD_EXTRACTION_SCHEMA@,
        r.system_prompt@ == trim(STORY_CHAPTER_CLOUD_EXTRACTION_SYSTEM@),
        r.user_prompt@ == render_first(
            trim(STORY_CHAPTER_CLOUD_EXTRACTION_USER@),
            cloud_prompt_variables(*input),
            11,
        ),
{
    let title = trimmed_or_default(&input.title, DEFAULT_CHAPTER_TITLE);
    let source_language = trimmed_or_default(&input.source_language, DEFAULT_SOURCE_LANGUAGE);
    let novel_context = trimmed_or_default(&input.novel_context, DEFAULT_NOVEL_CONTEXT);
    let known_alias_surfaces_json = trimmed_or_default(
        &input.known_alias_surfaces_json,
        EMPTY_JSON_ARRAY,
    );
    let known_relationships_json = trimmed_or_default(
        &input.known_relationships_json,
        EMPTY_JSON_ARRAY,
    );
    let chapter_num = i64_to_string(input.chapter_num);
    let template = story_chapter_cloud_extraction_template();
    let response_schema_json = match template.response_schema_json {
        Some(schema) => schema,
        None => "",
    };
    let user_template = trim_str(template.user_template);
    let variables: [(&str, &str); 11] = [
        ("schema_version", CLOUD_CHAPTER_EXTRACTION_SCHEMA_VERSION),
        ("prompt_id", template.id),
        ("prompt_version", template.version),
        ("call_profile", CLOUD_GEMINI_ONE_SHOT_CALL_PROFILE),
        ("chapter_num", chapter_num.as_str()),
        ("title", title.as_str()),
        ("source_language", source_language.as_str()),
        ("novel_context", novel_context.as_str()),
        ("known_alias_surfaces_json", known_alias_surfaces_json.as_str()),
        ("known_relationships_json", known_relationships_json.as_str()),
        ("chapter_text", input.chapter_text.as_str()),
    ];
    let user_prompt = render_prompt_template(user_template.as_str(), &variables);
    proof {
        assert(pair_views(variables@) =~= cloud_prompt_variables(*input));
    }
    CloudChapterExtractionPrompt {
        schema_version: CLOUD_CHAPTER_EXTRACTION_SCHEMA_VERSION,
        template_id: template.id,
        template_version: template.version,
        call_profile: CLOUD_GEMINI_ONE_SHOT_CALL_PROFILE,
        response_schema_json,
        system_prompt: trim_str(template.system_template),
        user_prompt,
    }
}

/// Builds the prompt that asks a model to repair invalid JSON output.
pub fn build_structured_json_repair_prompt(
    schema_version: &str,
    response_schema_json: &str,
    invalid_json: &str,
) -> (r: StructuredJsonRepairPrompt)
    ensures
        r.template_id@ == STRUCTURED_JSON_REPAIR_PROMPT_ID@,
        r.template_version@ == STRUCTURED_JSON_REPAIR_PROMPT_VERSION@,
        r.system_prompt@ == trim(STRUCTURED_JSON_REPAIR_SYSTEM@),
        r.user_prompt@ == render_first(
            trim(STRUCTURED_JSON_REPAIR_USER@),
            seq![
                ("schema_version"@, schema_version@),
                ("response_schema_json"@, response_schema_json@),
                ("invalid_json"@, invalid_json@),
            ],
            3,
        ),
{
    let template = structured_json_repair_template();
    let user_template = trim_str(template.user_template);
    let variables: [(&str, &str); 3] = [
        ("schema_version", schema_version),
        ("response_schema_json", response_schema_json),
        ("invalid_json", invalid_json),
    ];
    let user_prompt = render_prompt_template(user_template.as_str(), &variables);
    proof {
        assert(pair_views(variables@) =~= seq![
            ("schema_version"@, schema_version@),
            ("response_schema_json"@, response_schema_json@),
            ("invalid_json"@, invalid_json@),
        ]);
    }
    StructuredJsonRepairPrompt {
        template_id: template.id,
        template_version: template.version,
        system_prompt: trim_str(template.system_template),
        user_prompt,
    }
}

// ------------------------------------------------------------------------
// What the optional fields of a prompt come to.
// ------------------------------------------------------------------------
/// Two inputs that give the same prompt: same chapter and text, and each
/// optional field the same once trimmed and defaulted.
pub open spec fn same_prompt_fields(a: CloudChapterExtractionInput, b: CloudChapterExtractionInput) -> bool {
    &&& a.chapter_num == b.chapter_num
    &&& a.chapter_text@ == b.chapter_text@
    &&& trimmed_or(opt_view(a.title), DEFAULT_CHAPTER_TITLE@) == trimmed_or(opt_view(b.title), DEFAULT_CHAPTER_TITLE@)
    &&& trimmed_or(opt_view(a.source_language), DEFAULT_SOURCE_LANGUAGE@) == trimmed_or(
        opt_view(b.source_language),
        DEFAULT_SOURCE_LANGUAGE@,
    )
    &&& trimmed_or(opt_view(a.novel_context), DEFAULT_NOVEL_CONTEXT@) == trimmed_or(
        opt_view(b.novel_context),
        DEFAULT_NOVEL_CONTEXT@,
    )
    &&& trimmed_or(opt_view(a.known_alias_surfaces_json), EMPTY_JSON_ARRAY@) == trimmed_or(
        opt_view(b.known_alias_surfaces_json),
        EMPTY_JSON_ARRAY@,
    )
    &&& trimmed_or(opt_view(a.known_relationships_json), EMPTY_JSON_ARRAY@) == trimmed_or(
        opt_view(b.known_relationships_json),
        EMPTY_JSON_ARRAY@,
    )
}

/// Inputs whose optional fields come to the same values give the same
/// prompt.
pub proof fn lemma_same_fields_same_prompt(a: CloudChapterExtractionInput, b: CloudChapterExtractionInput)
    requires
        same_prompt_fields(a, b),
    ensures
        cloud_prompt_variables(a) == cloud_prompt_variables(b),
{
}

proof fn lemma_literal_trimmed(d: Seq<char>)
    requires
        d.len() > 0,
        !is_ws(d[0]),
        !is_ws(d.last()),
    ensures
        trim(d) == d,
{
    assert(trim_start(d) == d);
}

/// An optional field of the prompt: missing or blank gives its default, the
/// default itself gives the default, and whitespace around a value changes
/// nothing. Every default of the prompt is such a value.
pub proof fn lemma_prompt_field_defaults(value: Seq<char>, before: Seq<char>, after: Seq<char>, default: Seq<char>)
    requires
        all_ws(before),
        all_ws(after),
        default == DEFAULT_CHAPTER_TITLE@ || default == DEFAULT_SOURCE_LANGUAGE@ || default
            == DEFAULT_NOVEL_CONTEXT@ || default == EMPTY_JSON_ARRAY@,
    ensures
        trimmed_or(None, default) == default,
        all_ws(value) ==> trimmed_or(Some(value), default) == default,
        trimmed_or(Some(default), default) == default,
        trimmed_or(Some(before + value + after), default) == trimmed_or(Some(value), default),
{
    reveal_strlit("Untitled chapter");
    reveal_strlit("unknown");
    reveal_strlit("No novel context provided.");
    reveal_strlit("[]");
    lemma_literal_trimmed(default);
    lemma_trim_padded(before, value, after);
    if all_ws(value) {
        let e = Seq::<char>::empty();
        lemma_trim_padded(value, e, e);
        assert(value + e + e =~= value);
        assert(trim(e) == e);
    }
}

} // verus!
