//! Prompt builders for the local staged extraction pipeline: a draft
//! extraction prompt and one prompt per character pass (identities, aliases,
//! mentions, fields, relationships, reviews).
use vstd::prelude::*;
use crate::text::{i64_to_string, int_decimal, opt_view, push_str, trimmed_or, trimmed_or_default};

verus! {

pub const DRAFT_EXTRACTION_SCHEMA_VERSION: &'static str = "draft.chapter_extraction.v0";
pub const CHARACTER_EXTRACTION_SCHEMA_VERSION: &'static str = "story_character_extraction.v1";

pub const DEFAULT_CHAPTER_TITLE: &'static str = "Untitled chapter";
pub const DEFAULT_SOURCE_LANGUAGE: &'static str = "unknown";
pub const DEFAULT_PRIOR_CONTEXT: &'static str = "No prior context is provided.";
pub const SYSTEM_PROMPT: &'static str = "You extract structured fiction facts from exactly one current chapter. Use source evidence from the current chapter only. Prior context may help disambiguate names, but it must not be cited as evidence. Do not use future chapters. Return valid JSON only.";
pub const CHARACTER_SYSTEM_PROMPT: &'static str = "You extract only character information from exactly one current chapter. Use source evidence from the current chapter only. Prior context may help disambiguate names, but it must not be cited as evidence. Do not use future chapters. Return valid JSON only.";

#[derive(Debug, Clone, PartialEq, Eq)]
pub struct DraftExtractionInput {
    pub chapter_num: i64,
    pub title: Option<String>,
    pub source_language: Option<String>,
    pub text: String,
    pub prior_context: Option<String>,
}

#[derive(Debug, Clone, PartialEq, Eq)]
pub struct DraftExtractionPrompt {
    pub schema_version: &'static str,
    pub system_prompt: String,
    pub user_prompt: String,
}

/// The chapter title shown to the model: the trimmed title, or a default.
pub open spec fn prompt_title(input: DraftExtractionInput) -> Seq<char> {
    trimmed_or(opt_view(input.title), DEFAULT_CHAPTER_TITLE@)
}

/// The source language shown to the model: the trimmed value, or "unknown".
pub open spec fn prompt_source_language(input: DraftExtractionInput) -> Seq<char> {
    trimmed_or(opt_view(input.source_language), DEFAULT_SOURCE_LANGUAGE@)
}

/// The prior context shown to the model: the trimmed value, or a default line.
pub open spec fn prompt_prior_context(input: DraftExtractionInput) -> Seq<char> {
    trimmed_or(opt_view(input.prior_context), DEFAULT_PRIOR_CONTEXT@)
}
pub const DRAFT_EXTRACTION_PART_0: &'static str = "Schema version: ";
pub const DRAFT_EXTRACTION_PART_1: &'static str = "\nChapter number: ";
pub const DRAFT_EXTRACTION_PART_2: &'static str = "\nChapter title: ";
pub const DRAFT_EXTRACTION_PART_3: &'static str = "\nSource language: ";
pub const DRAFT_EXTRACTION_PART_4: &'static str = "\n\nAllowed prior context:\n";
pub const DRAFT_EXTRACTION_PART_5: &'static str = "\n\nCurrent chapter source text or chapter chunk:\n<<<CHAPTER_TEXT\n";
pub const DRAFT_EXTRACTION_PART_6: &'static str = "\nCHAPTER_TEXT\n\nReturn only valid JSON with this shape:\n{\n  \"schema_version\": \"";
pub const DRAFT_EXTRACTION_PART_7: &'static str = "\",\n  \"characters\": [],\n  \"locations\": [],\n  \"organizations\": [],\n  \"items\": [],\n  \"concepts\": [],\n  \"relationships\": [],\n  \"events\": [],\n  \"spatial_relations\": [],\n  \"review_items\": []\n}\n\nFor every factual item, include:\n- \"confidence\": number between 0 and 1\n- \"evidence\": array of objects with \"chapter_num\", \"start_char\", \"end_char\", \"quote\", and \"reason\"\n\nIf a fact is inferred or uncertain, put it into \"review_items\" and explain why.";

/// The user prompt of `build_draft_extraction_prompt`, with the values filled in.
pub open spec fn draft_extraction_user_prompt(chapter_num: Seq<char>, title: Seq<char>, source_language: Seq<char>, prior_context: Seq<char>, text: Seq<char>) -> Seq<char> {
    DRAFT_EXTRACTION_PART_0@
        + DRAFT_EXTRACTION_SCHEMA_VERSION@
        + DRAFT_EXTRACTION_PART_1@
        + chapter_num
        + DRAFT_EXTRACTION_PART_2@
        + title
        + DRAFT_EXTRACTION_PART_3@
        + source_language
        + DRAFT_EXTRACTION_PART_4@
        + prior_context
        + DRAFT_EXTRACTION_PART_5@
        + text
        + DRAFT_EXTRACTION_PART_6@
        + DRAFT_EXTRACTION_SCHEMA_VERSION@
        + DRAFT_EXTRACTION_PART_7@
}

pub fn build_draft_extraction_prompt(input: &DraftExtractionInput) -> (r: DraftExtractionPrompt)
    ensures
        r.schema_version@ == DRAFT_EXTRACTION_SCHEMA_VERSION@,
        r.system_prompt@ == SYSTEM_PROMPT@,
        r.user_prompt@ == draft_extraction_user_prompt(int_decimal(input.chapter_num as int), prompt_title(*input), prompt_source_language(*input), prompt_prior_context(*input), input.text@),
{
    let title = trimmed_or_default(&input.title, DEFAULT_CHAPTER_TITLE);
    let source_language = trimmed_or_default(&input.source_language, DEFAULT_SOURCE_LANGUAGE);
    let prior_context = trimmed_or_default(&input.prior_context, DEFAULT_PRIOR_CONTEXT);
    let chapter_num = i64_to_string(input.chapter_num);
    let mut user_prompt = String::new();
    push_str(&mut user_prompt, DRAFT_EXTRACTION_PART_0);
    push_str(&mut user_prompt, DRAFT_EXTRACTION_SCHEMA_VERSION);
    push_str(&mut user_prompt, DRAFT_EXTRACTION_PART_1);
    push_str(&mut user_prompt, chapter_num.as_str());
    push_str(&mut user_prompt, DRAFT_EXTRACTION_PART_2);
    push_str(&mut user_prompt, title.as_str());
    push_str(&mut user_prompt, DRAFT_EXTRACTION_PART_3);
    push_str(&mut user_prompt, source_language.as_str());
    push_str(&mut user_prompt, DRAFT_EXTRACTION_PART_4);
    push_str(&mut user_prompt, prior_context.as_str());
    push_str(&mut user_prompt, DRAFT_EXTRACTION_PART_5);
    push_str(&mut user_prompt, input.text.as_str());
    push_str(&mut user_prompt, DRAFT_EXTRACTION_PART_6);
    push_str(&mut user_prompt, DRAFT_EXTRACTION_SCHEMA_VERSION);
    push_str(&mut user_prompt, DRAFT_EXTRACTION_PART_7);
    DraftExtractionPrompt {
        schema_version: DRAFT_EXTRACTION_SCHEMA_VERSION,
        system_prompt: crate::text::owned(SYSTEM_PROMPT),
        user_prompt,
    }
}
pub const CHARACTER_EXTRACTION_PART_0: &'static str = "Schema version: ";
pub const CHARACTER_EXTRACTION_PART_1: &'static str = "\nChapter number: ";
pub const CHARACTER_EXTRACTION_PART_2: &'static str = "\nChapter title: ";
pub const CHARACTER_EXTRACTION_PART_3: &'static str = "\nSource language: ";
pub const CHARACTER_EXTRACTION_PART_4: &'static str = "\n\nAllowed prior context:\n";
pub const CHARACTER_EXTRACTION_PART_5: &'static str = "\n\nCurrent chapter source text:\n<<<CHAPTER_TEXT\n";
pub const CHARACTER_EXTRACTION_PART_6: &'static str = "\nCHAPTER_TEXT\n\nExtract only records that belong to this large group:\n- group_key: \"character\"\n- group_label: \"Nhân Vật\"\n\nReturn only one strict JSON object. Do not use Markdown fences, comments, trailing commas, or text outside JSON. If the chapter contains too much information, keep fewer records and fewer fields, but always return complete valid JSON.\n\nOutput limits for this temporary slice:\n- Maximum 8 character records for the provided text block.\n- Maximum 8 fields per character.\n- Maximum 2 values per field.\n- Maximum 2 evidence entries per value.\n- Maximum 40 mentions per character.\n- Keep each quote under 120 characters.\n\nReturn JSON with this shape:\n{\n  \"schema_version\": \"";
pub const CHARACTER_EXTRACTION_PART_7: &'static str = "\",\n  \"chapter_num\": ";
pub const CHARACTER_EXTRACTION_PART_8: &'static str = ",\n  \"records\": [\n    {\n      \"group_key\": \"character\",\n      \"group_label\": \"Nhân Vật\",\n      \"entity_key\": \"ascii_snake_case_character_key\",\n      \"display_name\": \"Tên hiển thị tốt nhất\",\n      \"mentions\": [\n        {\n          \"text\": \"Chuỗi xuất hiện trong chương cần highlight\",\n          \"start_char\": 0,\n          \"end_char\": 0,\n          \"mention_type\": \"name\"\n        }\n      ],\n      \"fields\": [\n        {\n          \"field_key\": \"ascii_snake_case_key_created_from_the_observed_fact\",\n          \"field_label\": \"Nhãn tiếng Việt có dấu để hiển thị UI\",\n          \"values\": [\n            {\n              \"value\": \"Giá trị trích xuất từ chương\",\n              \"confidence\": 0.0,\n              \"evidence\": [\n                {\n                  \"chapter_num\": ";
pub const CHARACTER_EXTRACTION_PART_9: &'static str = ",\n                  \"quote\": \"trích dẫn ngắn trong chương\",\n                  \"reason\": \"vì sao evidence này chứng minh giá trị\"\n                }\n              ]\n            }\n          ]\n        }\n      ]\n    }\n  ]\n}\n\nYou may create any small field that is clearly supported by the chapter, such as names, aliases, titles, personality, role, ability, status, relationship, appearance, motive, secret, or other character facts. These are examples only; do not force a field when the chapter does not support it.\n\nRules:\n- Every record must use group_key \"character\".\n- The provided CHAPTER_TEXT block may be only one smaller chunk from the chapter.\n- Do not return locations, items, organizations, concepts, events, or relationships as top-level records in this schema.\n- Do not copy placeholder values from the JSON shape. Replace them with values supported by the provided text.\n- Create field_key and field_label from the actual fact you observe.\n- field_key must be stable ASCII snake_case: lowercase English letters, numbers, and underscores only.\n- Do not use Vietnamese diacritics or spaces in field_key. Use examples like \"other_name\", \"personality\", \"family_relation\", \"current_role\", \"ability\", \"appearance\", \"status\", or \"goal\".\n- field_label must be Vietnamese with proper diacritics.\n- value should be concise and readable.\n- Use evidence from the current chapter only.\n- Only mentions require start_char and end_char.\n- Do not put start_char or end_char inside field values or evidence.\n- mentions must contain the exact visible strings to highlight for the character, such as names, aliases, nicknames, or titles.\n- A mention must be the minimal contiguous surface form that identifies the character and can stand on its own as a name, alias, nickname, or title.\n- Do not include surrounding determiners, demonstratives, pronouns, possessive phrases, relationship owners, particles, verbs, adjectives, clause context, or explanatory words in mention.text.\n- If a longer phrase contains a character reference plus ownership, relationship, or context words, mention.text must keep only the character reference. Put the ownership, relationship, or context into fields when it is supported by the text.\n- Do not use generic pronouns or pronoun phrases as highlights. Use them only inside evidence.quote or evidence.reason when needed.\n- If two possible mention spans overlap for the same character, prefer the shorter span that still identifies the character.\n- For every selected character surface form, return every non-overlapping occurrence inside the provided CHAPTER_TEXT block, not just one representative occurrence.\n- If the same visible string appears multiple times for the same character, create one mention object for each occurrence with its own start_char and end_char.\n- mention_type should be one of \"name\", \"alias\", \"nickname\", \"title\", or \"other\".\n- mention start_char and end_char should be exact 0-based character offsets inside the provided CHAPTER_TEXT block.\n- mention start_char is inclusive and mention end_char is exclusive.\n- Do not guess mention offsets. If you are unsure, omit that mention.\n- Do not use start_char 0 and end_char 0 as placeholder values.\n- Every mention span must stay inside the provided CHAPTER_TEXT block.\n- Count characters from the first character after CHAPTER_TEXT, including spaces, punctuation, Vietnamese characters, and newlines.\n- The substring CHAPTER_TEXT[start_char:end_char] should match mention.text as closely as possible.\n- Prefer one strong evidence quote over many repeated quotes.\n- If a character fact is uncertain, keep it as a field on the character with lower confidence and explain uncertainty in evidence.reason.\n- Before finishing, verify that every array and object is closed.\n- If no character information appears, return records as an empty array.";

/// The user prompt of `build_character_extraction_prompt`, with the values filled in.
pub open spec fn character_extraction_user_prompt(chapter_num: Seq<char>, title: Seq<char>, source_language: Seq<char>, prior_context: Seq<char>, text: Seq<char>) -> Seq<char> {
    CHARACTER_EXTRACTION_PART_0@
        + CHARACTER_EXTRACTION_SCHEMA_VERSION@
        + CHARACTER_EXTRACTION_PART_1@
        + chapter_num
        + CHARACTER_EXTRACTION_PART_2@
        + title
        + CHARACTER_EXTRACTION_PART_3@
        + source_language
        + CHARACTER_EXTRACTION_PART_4@
        + prior_context
        + CHARACTER_EXTRACTION_PART_5@
        + text
        + CHARACTER_EXTRACTION_PART_6@
        + CHARACTER_EXTRACTION_SCHEMA_VERSION@
        + CHARACTER_EXTRACTION_PART_7@
        + chapter_num
        + CHARACTER_EXTRACTION_PART_8@
        + chapter_num
        + CHARACTER_EXTRACTION_PART_9@
}

pub fn build_character_extraction_prompt(input: &DraftExtractionInput) -> (r: DraftExtractionPrompt)
    ensures
        r.schema_version@ == CHARACTER_EXTRACTION_SCHEMA_VERSION@,
        r.system_prompt@ == CHARACTER_SYSTEM_PROMPT@,
        r.user_prompt@ == character_extraction_user_prompt(int_decimal(input.chapter_num as int), prompt_title(*input), prompt_source_language(*input), prompt_prior_context(*input), input.text@),
{
    let title = trimmed_or_default(&input.title, DEFAULT_CHAPTER_TITLE);
    let source_language = trimmed_or_default(&input.source_language, DEFAULT_SOURCE_LANGUAGE);
    let prior_context = trimmed_or_default(&input.prior_context, DEFAULT_PRIOR_CONTEXT);
    let chapter_num = i64_to_string(input.chapter_num);
    let mut user_prompt = String::new();
    push_str(&mut user_prompt, CHARACTER_EXTRACTION_PART_0);
    push_str(&mut user_prompt, CHARACTER_EXTRACTION_SCHEMA_VERSION);
    push_str(&mut user_prompt, CHARACTER_EXTRACTION_PART_1);
    push_str(&mut user_prompt, chapter_num.as_str());
    push_str(&mut user_prompt, CHARACTER_EXTRACTION_PART_2);
    push_str(&mut user_prompt, title.as_str());
    push_str(&mut user_prompt, CHARACTER_EXTRACTION_PART_3);
    push_str(&mut user_prompt, source_language.as_str());
    push_str(&mut user_prompt, CHARACTER_EXTRACTION_PART_4);
    push_str(&mut user_prompt, prior_context.as_str());
    push_str(&mut user_prompt, CHARACTER_EXTRACTION_PART_5);
    push_str(&mut user_prompt, input.text.as_str());
    push_str(&mut user_prompt, CHARACTER_EXTRACTION_PART_6);
    push_str(&mut user_prompt, CHARACTER_EXTRACTION_SCHEMA_VERSION);
    push_str(&mut user_prompt, CHARACTER_EXTRACTION_PART_7);
    push_str(&mut user_prompt, chapter_num.as_str());
    push_str(&mut user_prompt, CHARACTER_EXTRACTION_PART_8);
    push_str(&mut user_prompt, chapter_num.as_str());
    push_str(&mut user_prompt, CHARACTER_EXTRACTION_PART_9);
    DraftExtractionPrompt {
        schema_version: CHARACTER_EXTRACTION_SCHEMA_VERSION,
        system_prompt: crate::text::owned(CHARACTER_SYSTEM_PROMPT),
        user_prompt,
    }
}
pub const CHARACTER_IDENTITY_PART_0: &'static str = "Chapter number: ";
pub const CHARACTER_IDENTITY_PART_1: &'static str = "\nChapter title: ";
pub const CHARACTER_IDENTITY_PART_2: &'static str = "\nSource language: ";
pub const CHARACTER_IDENTITY_PART_3: &'static str = "\n\nAllowed prior context:\n";
pub const CHARACTER_IDENTITY_PART_4: &'static str = "\n\nCurrent chapter chunk:\n<<<CHAPTER_TEXT\n";
pub const CHARACTER_IDENTITY_PART_5: &'static str = "\nCHAPTER_TEXT\n\nTrích xuất node nhân vật trong đoạn. Với mỗi nhân vật, trả name và aliases=[].\nPass này chỉ được phát hiện node nhân vật, không quyết định alias/coreference.\nNếu đoạn nói một chuỗi là tên gọi, biệt danh, cách gọi trong cộng đồng, hoặc tên chính thức của cùng người, vẫn trả các surface đó như node riêng khi chưa chắc owner; pass Alias Ownership sẽ gộp sau.\nname là tên chính hoặc chuỗi định danh tối thiểu tự đứng được.\nLoại bỏ từ chỉ định, đại từ, sở hữu, quan hệ chủ sở hữu và ngữ cảnh xung quanh.\nKhông lấy ngôi xưng, đại từ hồi chỉ, cụm chỉ định, cụm sở hữu, cách gọi tạm thời trong một câu, hoặc surface chỉ có tác dụng nối ngữ pháp về người đã nhắc trước đó.\nMột node nhân vật phải là surface có thể đứng độc lập như tên riêng, biệt danh, tên gọi ổn định, danh xưng định danh một người cụ thể, hoặc tên chính thức trong truyện.\nKhông lấy nhóm người chung nếu đoạn không định danh một người cụ thể.\nKhông đưa tên nhân vật khác, vai quan hệ giữa hai nhân vật, hoặc người thân của nhân vật hiện tại vào aliases.\nNếu đoạn chỉ nói quan hệ giữa nhân vật hiện tại và một nhân vật khác, bỏ qua trong identity pass; quan hệ A-B thuộc pipeline Relationship riêng.\nNếu một câu có nhiều người cùng xuất hiện, không merge alias ở pass này.\naliases phải luôn là [] vì alias/coreference thuộc pass Alias Ownership riêng.\n\nChỉ trả JSON array object trực tiếp:\n[\n  {\n    \"name\": \"Tên chính hoặc định danh tối thiểu\",\n    \"aliases\": []\n  }\n]";

/// The user prompt of `build_character_identity_prompt`, with the values filled in.
pub open spec fn character_identity_user_prompt(chapter_num: Seq<char>, title: Seq<char>, source_language: Seq<char>, prior_context: Seq<char>, text: Seq<char>) -> Seq<char> {
    CHARACTER_IDENTITY_PART_0@
        + chapter_num
        + CHARACTER_IDENTITY_PART_1@
        + title
        + CHARACTER_IDENTITY_PART_2@
        + source_language
        + CHARACTER_IDENTITY_PART_3@
        + prior_context
        + CHARACTER_IDENTITY_PART_4@
        + text
        + CHARACTER_IDENTITY_PART_5@
}

pub fn build_character_identity_prompt(input: &DraftExtractionInput) -> (r: DraftExtractionPrompt)
    ensures
        r.schema_version@ == CHARACTER_EXTRACTION_SCHEMA_VERSION@,
        r.system_prompt@ == CHARACTER_SYSTEM_PROMPT@,
        r.user_prompt@ == character_identity_user_prompt(int_decimal(input.chapter_num as int), prompt_title(*input), prompt_source_language(*input), prompt_prior_context(*input), input.text@),
{
    let title = trimmed_or_default(&input.title, DEFAULT_CHAPTER_TITLE);
    let source_language = trimmed_or_default(&input.source_language, DEFAULT_SOURCE_LANGUAGE);
    let prior_context = trimmed_or_default(&input.prior_context, DEFAULT_PRIOR_CONTEXT);
    let chapter_num = i64_to_string(input.chapter_num);
    let mut user_prompt = String::new();
    push_str(&mut user_prompt, CHARACTER_IDENTITY_PART_0);
    push_str(&mut user_prompt, chapter_num.as_str());
    push_str(&mut user_prompt, CHARACTER_IDENTITY_PART_1);
    push_str(&mut user_prompt, title.as_str());
    push_str(&mut user_prompt, CHARACTER_IDENTITY_PART_2);
    push_str(&mut user_prompt, source_language.as_str());
    push_str(&mut user_prompt, CHARACTER_IDENTITY_PART_3);
    push_str(&mut user_prompt, prior_context.as_str());
    push_str(&mut user_prompt, CHARACTER_IDENTITY_PART_4);
    push_str(&mut user_prompt, input.text.as_str());
    push_str(&mut user_prompt, CHARACTER_IDENTITY_PART_5);
    DraftExtractionPrompt {
        schema_version: CHARACTER_EXTRACTION_SCHEMA_VERSION,
        system_prompt: crate::text::owned(CHARACTER_SYSTEM_PROMPT),
        user_prompt,
    }
}
pub const CHARACTER_CANDIDATE_PART_0: &'static str = "Chapter number: ";
pub const CHARACTER_CANDIDATE_PART_1: &'static str = "\nChapter title: ";
pub const CHARACTER_CANDIDATE_PART_2: &'static str = "\nSource language: ";
pub const CHARACTER_CANDIDATE_PART_3: &'static str = "\n\nAllowed prior context:\n";
pub const CHARACTER_CANDIDATE_PART_4: &'static str = "\n\nCurrent chapter chunk:\n<<<CHAPTER_TEXT\n";
pub const CHARACTER_CANDIDATE_PART_5: &'static str = "\nCHAPTER_TEXT\n\nQuét nhanh ứng viên surface nhân vật trong đoạn hiện tại. Đây là checklist phủ sóng cho identity pass kế tiếp, chưa phải dữ liệu cuối cùng.\n\nChỉ dùng bằng chứng trong CHAPTER_TEXT. Không dùng kiến thức ngoài chương, không dùng chương tương lai.\nƯu tiên mọi người có tên riêng, biệt danh, tên chính thức, tên gọi cố định hoặc danh xưng cố định gắn với đúng một người trong đoạn.\nKhông trả đại từ, danh từ chung, nhóm người chung hoặc cụm mô tả không định danh một người cụ thể.\nKhông trả ngôi xưng, đại từ hồi chỉ, cụm chỉ định, cụm sở hữu, cách gọi tạm thời trong một câu, hoặc surface chỉ có tác dụng nối ngữ pháp về người đã nhắc trước đó.\nCandidate phải là surface có thể đứng độc lập như tên riêng, biệt danh, tên gọi ổn định, danh xưng định danh một người cụ thể, hoặc tên chính thức trong truyện.\nKhông quyết định alias/coreference ở pass này.\nNếu một chuỗi có thể là alias của người khác, vẫn trả như candidate riêng; pass Alias Ownership sẽ xác định owner sau.\nMỗi candidate nên có evidence quote ngắn từ CHAPTER_TEXT. Offset evidence có thể bỏ trống nếu không chắc.\naliases phải luôn là [].\n\nChỉ trả JSON array trực tiếp:\n[\n  {\n    \"surface_text\": \"Chuỗi định danh xuất hiện trong đoạn\",\n    \"display_name\": \"Tên chính nếu đoạn xác định được, nếu không dùng surface_text\",\n    \"kind\": \"person\",\n    \"role_label\": \"mô tả rất ngắn nếu có\",\n    \"aliases\": [],\n    \"evidence\": [\n      {\n        \"chapter_num\": ";
pub const CHARACTER_CANDIDATE_PART_6: &'static str = ",\n        \"quote\": \"trích dẫn ngắn trong đoạn\",\n        \"reason\": \"vì sao đây là ứng viên nhân vật\"\n      }\n    ],\n    \"confidence\": 0.0\n  }\n]";

/// The user prompt of `build_character_candidate_prompt`, with the values filled in.
pub open spec fn character_candidate_user_prompt(chapter_num: Seq<char>, title: Seq<char>, source_language: Seq<char>, prior_context: Seq<char>, text: Seq<char>) -> Seq<char> {
    CHARACTER_CANDIDATE_PART_0@
        + chapter_num
        + CHARACTER_CANDIDATE_PART_1@
        + title
        + CHARACTER_CANDIDATE_PART_2@
        + source_language
        + CHARACTER_CANDIDATE_PART_3@
        + prior_context
        + CHARACTER_CANDIDATE_PART_4@
        + text
        + CHARACTER_CANDIDATE_PART_5@
        + chapter_num
        + CHARACTER_CANDIDATE_PART_6@
}

pub fn build_character_candidate_prompt(input: &DraftExtractionInput) -> (r: DraftExtractionPrompt)
    ensures
        r.schema_version@ == CHARACTER_EXTRACTION_SCHEMA_VERSION@,
        r.system_prompt@ == CHARACTER_SYSTEM_PROMPT@,
        r.user_prompt@ == character_candidate_user_prompt(int_decimal(input.chapter_num as int), prompt_title(*input), prompt_source_language(*input), prompt_prior_context(*input), input.text@),
{
    let title = trimmed_or_default(&input.title, DEFAULT_CHAPTER_TITLE);
    let source_language = trimmed_or_default(&input.source_language, DEFAULT_SOURCE_LANGUAGE);
    let prior_context = trimmed_or_default(&input.prior_context, DEFAULT_PRIOR_CONTEXT);
    let chapter_num = i64_to_string(input.chapter_num);
    let mut user_prompt = String::new();
    push_str(&mut user_prompt, CHARACTER_CANDIDATE_PART_0);
    push_str(&mut user_prompt, chapter_num.as_str());
    push_str(&mut user_prompt, CHARACTER_CANDIDATE_PART_1);
    push_str(&mut user_prompt, title.as_str());
    push_str(&mut user_prompt, CHARACTER_CANDIDATE_PART_2);
    push_str(&mut user_prompt, source_language.as_str());
    push_str(&mut user_prompt, CHARACTER_CANDIDATE_PART_3);
    push_str(&mut user_prompt, prior_context.as_str());
    push_str(&mut user_prompt, CHARACTER_CANDIDATE_PART_4);
    push_str(&mut user_prompt, input.text.as_str());
    push_str(&mut user_prompt, CHARACTER_CANDIDATE_PART_5);
    push_str(&mut user_prompt, chapter_num.as_str());
    push_str(&mut user_prompt, CHARACTER_CANDIDATE_PART_6);
    DraftExtractionPrompt {
        schema_version: CHARACTER_EXTRACTION_SCHEMA_VERSION,
        system_prompt: crate::text::owned(CHARACTER_SYSTEM_PROMPT),
        user_prompt,
    }
}
pub const CHARACTER_ALIAS_OWNERSHIP_PART_0: &'static str = "Chapter number: ";
pub const CHARACTER_ALIAS_OWNERSHIP_PART_1: &'static str = "\nChapter title: ";
pub const CHARACTER_ALIAS_OWNERSHIP_PART_2: &'static str = "\nSource language: ";
pub const CHARACTER_ALIAS_OWNERSHIP_PART_3: &'static str = "\n\nAllowed prior context:\n";
pub const CHARACTER_ALIAS_OWNERSHIP_PART_4: &'static str = "\n\nIDENTITY_NODES_JSON:\n";
pub const CHARACTER_ALIAS_OWNERSHIP_PART_5: &'static str = "\n\nCurrent chapter chunk:\n<<<CHAPTER_TEXT\n";
pub const CHARACTER_ALIAS_OWNERSHIP_PART_6: &'static str = "\nCHAPTER_TEXT\n\nVai trò của bạn: bộ xác định alias ownership và coreference theo câu cho nhân vật truyện.\n\nPipeline boundary:\n- Identity/Candidate pass chỉ tạo node nhân vật.\n- Pass này là nơi duy nhất được quyết định một surface có tính tên gọi bền vững là tên gọi khác của node nào trong đoạn hiện tại.\n- Không tạo nhân vật mới.\n- Không trích xuất relationship A-B, ngoại hình, năng lực, trạng thái, hành động hoặc field khác.\n- Không tạo mention offsets.\n\nNhiệm vụ:\nĐọc CHAPTER_TEXT và IDENTITY_NODES_JSON, rồi trả các cặp owner_name -> alias_text khi quote trong đoạn chứng minh alias_text là tên gọi khác của đúng owner_name.\nowner_name phải khớp một name đã có trong IDENTITY_NODES_JSON.\nalias_text phải là chuỗi định danh ngắn nhất tự đứng được trong CHAPTER_TEXT hoặc là name của một node khác trong IDENTITY_NODES_JSON cần nhập vào owner.\nalias_text phải có thể dùng lại trên UI như một tên gọi bền vững của nhân vật ngoài câu hiện tại.\nKhông trả surface chỉ là ngôi xưng, đại từ hồi chỉ, cụm chỉ định, cụm sở hữu, vai ngữ pháp trong câu, hoặc cách tham chiếu tạm thời dù nó đang trỏ đúng về owner.\nNếu một surface chỉ giúp bạn hiểu ai đang được nhắc đến trong câu nhưng không phải tên gọi/biệt danh/danh xưng định danh bền vững, dùng nó để suy luận nội bộ rồi bỏ qua, không trả JSON.\n\nLuật coreference theo câu:\n- Chỉ gộp khi evidence trong cùng câu hoặc ngữ cảnh rất gần chứng minh hai surface là cùng một người.\n- Nếu câu có nhiều chủ thể, không gán alias cho người đầu tiên chỉ vì họ xuất hiện trước.\n- Nếu câu có cấu trúc đặt tên, giới thiệu tên thật, gán biệt danh, hoặc mô tả cách cộng đồng gọi một danh ngữ cụ thể, xác định chủ thể của alias bằng ngữ pháp/ngữ nghĩa của câu thay vì vị trí xuất hiện đầu tiên.\n- Với surface trong ngoặc kép, coi đó là candidate cần xét kỹ chứ không tự động là alias. Chỉ gộp nếu câu chứng minh surface đó là cách gọi bền vững của đúng một node nhân vật.\n- Khi alias đứng sau một cụm liệt kê nhiều người, chỉ gộp nếu quote cho thấy alias bổ nghĩa cho đúng một người; nếu alias có thể chỉ cả nhóm hoặc mơ hồ giữa nhiều người, bỏ qua.\n- Nếu alias bổ nghĩa cho danh ngữ gần nhất trong câu và danh ngữ đó là một node trong IDENTITY_NODES_JSON, gán alias cho node đó, không gán cho node xa hơn.\n- Không biến quan hệ A-B thành alias của A. Ví dụ một người thân, người quen, thuộc hạ, cấp trên của A là node riêng nếu không có evidence nói đó là cùng người với A.\n- Không gộp chỉ vì giống họ, giống một token, giống danh xưng xã hội, giống chức vụ hoặc cùng xuất hiện.\n- Không gộp các surface không bền vững chỉ vì tham chiếu ngữ pháp rõ ràng. Rõ chủ thể không đồng nghĩa với hợp lệ làm alias.\n- Nếu quote mô tả hành động, trạng thái, cảm xúc, sở hữu, thân thể hoặc đồ vật của owner thông qua một từ hồi chỉ/ngôi xưng, không lấy từ hồi chỉ/ngôi xưng đó làm alias.\n\nalias_type chỉ dùng:\n- \"nickname\" cho biệt danh, tên gọi quen, tên mô tả gắn với người.\n- \"other_alias\" cho tên gọi khác hoặc tên chính thức khác.\nKhông dùng alias_type khác cho output hợp lệ.\nNếu surface là đại từ, tham chiếu tạm thời, cụm mô tả, cụm sở hữu, cụm sự kiện, nhóm người chung, hoặc vai ngữ pháp trong câu thì không trả object đó.\nKhông trả alias_text nếu alias_text chứa nguyên tên owner cộng thêm từ khác, vì đó thường là cụm quan hệ/mệnh đề chứ không phải tên gọi độc lập.\nKhông trả alias_text dài theo mô tả sự kiện hoặc hành động. Alias hợp lệ phải đủ ngắn để có thể dùng lại như một tên gọi trên UI.\nalias_label phải là tiếng Việt có dấu.\nconfidence phải >= 0.0 và <= 1.0.\n\nNếu không có alias ownership đủ chắc, trả [].\nChỉ trả JSON array trực tiếp:\n[\n  {\n    \"owner_name\": \"name chính xác từ IDENTITY_NODES_JSON\",\n    \"alias_text\": \"surface alias ngắn nhất trong CHAPTER_TEXT\",\n    \"alias_type\": \"nickname\",\n    \"alias_label\": \"Biệt danh\",\n    \"confidence\": 0.0,\n    \"evidence\": [\n      {\n        \"chapter_num\": ";
pub const CHARACTER_ALIAS_OWNERSHIP_PART_7: &'static str = ",\n        \"quote\": \"một câu hoặc vế câu ngắn chứng minh owner và alias là cùng người\",\n        \"reason\": \"vì sao alias_text thuộc owner_name theo ngữ pháp/ngữ nghĩa của quote\"\n      }\n    ]\n  }\n]";

/// The user prompt of `build_character_alias_ownership_prompt`, with the values filled in.
pub open spec fn character_alias_ownership_user_prompt(chapter_num: Seq<char>, title: Seq<char>, source_language: Seq<char>, prior_context: Seq<char>, text: Seq<char>, identities_json: Seq<char>) -> Seq<char> {
    CHARACTER_ALIAS_OWNERSHIP_PART_0@
        + chapter_num
        + CHARACTER_ALIAS_OWNERSHIP_PART_1@
        + title
        + CHARACTER_ALIAS_OWNERSHIP_PART_2@
        + source_language
        + CHARACTER_ALIAS_OWNERSHIP_PART_3@
        + prior_context
        + CHARACTER_ALIAS_OWNERSHIP_PART_4@
        + identities_json
        + CHARACTER_ALIAS_OWNERSHIP_PART_5@
        + text
        + CHARACTER_ALIAS_OWNERSHIP_PART_6@
        + chapter_num
        + CHARACTER_ALIAS_OWNERSHIP_PART_7@
}

pub fn build_character_alias_ownership_prompt(input: &DraftExtractionInput, identities_json: &str) -> (r: DraftExtractionPrompt)
    ensures
        r.schema_version@ == CHARACTER_EXTRACTION_SCHEMA_VERSION@,
        r.system_prompt@ == CHARACTER_SYSTEM_PROMPT@,
        r.user_prompt@ == character_alias_ownership_user_prompt(int_decimal(input.chapter_num as int), prompt_title(*input), prompt_source_language(*input), prompt_prior_context(*input), input.text@, identities_json@),
{
    let title = trimmed_or_default(&input.title, DEFAULT_CHAPTER_TITLE);
    let source_language = trimmed_or_default(&input.source_language, DEFAULT_SOURCE_LANGUAGE);
    let prior_context = trimmed_or_default(&input.prior_context, DEFAULT_PRIOR_CONTEXT);
    let chapter_num = i64_to_string(input.chapter_num);
    let mut user_prompt = String::new();
    push_str(&mut user_prompt, CHARACTER_ALIAS_OWNERSHIP_PART_0);
    push_str(&mut user_prompt, chapter_num.as_str());
    push_str(&mut user_prompt, CHARACTER_ALIAS_OWNERSHIP_PART_1);
    push_str(&mut user_prompt, title.as_str());
    push_str(&mut user_prompt, CHARACTER_ALIAS_OWNERSHIP_PART_2);
    push_str(&mut user_prompt, source_language.as_str());
    push_str(&mut user_prompt, CHARACTER_ALIAS_OWNERSHIP_PART_3);
    push_str(&mut user_prompt, prior_context.as_str());
    push_str(&mut user_prompt, CHARACTER_ALIAS_OWNERSHIP_PART_4);
    push_str(&mut user_prompt, identities_json);
    push_str(&mut user_prompt, CHARACTER_ALIAS_OWNERSHIP_PART_5);
    push_str(&mut user_prompt, input.text.as_str());
    push_str(&mut user_prompt, CHARACTER_ALIAS_OWNERSHIP_PART_6);
    push_str(&mut user_prompt, chapter_num.as_str());
    push_str(&mut user_prompt, CHARACTER_ALIAS_OWNERSHIP_PART_7);
    DraftExtractionPrompt {
        schema_version: CHARACTER_EXTRACTION_SCHEMA_VERSION,
        system_prompt: crate::text::owned(CHARACTER_SYSTEM_PROMPT),
        user_prompt,
    }
}
pub const CHARACTER_MENTIONS_PART_0: &'static str = "Chapter number: ";
pub const CHARACTER_MENTIONS_PART_1: &'static str = "\nChapter title: ";
pub const CHARACTER_MENTIONS_PART_2: &'static str = "\nSource language: ";
pub const CHARACTER_MENTIONS_PART_3: &'static str = "\n\nAllowed prior context:\n";
pub const CHARACTER_MENTIONS_PART_4: &'static str = "\n\nCharacter loaded from DB:\n";
pub const CHARACTER_MENTIONS_PART_5: &'static str = "\n\nCurrent chapter chunk:\n<<<CHAPTER_TEXT\n";
pub const CHARACTER_MENTIONS_PART_6: &'static str = "\nCHAPTER_TEXT\n\nTìm mọi lần đoạn hiện tại nhắc tới đúng nhân vật trong Character loaded from DB.\nChỉ trả mention cho name hoặc aliases của nhân vật đó.\nmention.text phải là chuỗi định danh tối thiểu xuất hiện nguyên văn trong CHAPTER_TEXT.\nKhông lấy đại từ, từ chỉ định, cụm sở hữu, ngữ cảnh xung quanh hoặc cả mệnh đề.\nMỗi occurrence không overlap phải có một object riêng.\nstart_char là offset 0-based trong CHAPTER_TEXT, inclusive.\nend_char là offset 0-based trong CHAPTER_TEXT, exclusive.\nNếu không chắc offset thì bỏ occurrence đó.\n\nChỉ trả JSON array trực tiếp:\n[\n  {\n    \"text\": \"Chuỗi định danh tối thiểu\",\n    \"start_char\": 0,\n    \"end_char\": 0,\n    \"mention_type\": \"name\"\n  }\n]";

/// The user prompt of `build_character_mentions_prompt`, with the values filled in.
pub open spec fn character_mentions_user_prompt(chapter_num: Seq<char>, title: Seq<char>, source_language: Seq<char>, prior_context: Seq<char>, text: Seq<char>, character_json: Seq<char>) -> Seq<char> {
    CHARACTER_MENTIONS_PART_0@
        + chapter_num
        + CHARACTER_MENTIONS_PART_1@
        + title
        + CHARACTER_MENTIONS_PART_2@
        + source_language
        + CHARACTER_MENTIONS_PART_3@
        + prior_context
        + CHARACTER_MENTIONS_PART_4@
        + character_json
        + CHARACTER_MENTIONS_PART_5@
        + text
        + CHARACTER_MENTIONS_PART_6@
}

pub fn build_character_mentions_prompt(input: &DraftExtractionInput, character_json: &str) -> (r: DraftExtractionPrompt)
    ensures
        r.schema_version@ == CHARACTER_EXTRACTION_SCHEMA_VERSION@,
        r.system_prompt@ == CHARACTER_SYSTEM_PROMPT@,
        r.user_prompt@ == character_mentions_user_prompt(int_decimal(input.chapter_num as int), prompt_title(*input), prompt_source_language(*input), prompt_prior_context(*input), input.text@, character_json@),
{
    let title = trimmed_or_default(&input.title, DEFAULT_CHAPTER_TITLE);
    let source_language = trimmed_or_default(&input.source_language, DEFAULT_SOURCE_LANGUAGE);
    let prior_context = trimmed_or_default(&input.prior_context, DEFAULT_PRIOR_CONTEXT);
    let chapter_num = i64_to_string(input.chapter_num);
    let mut user_prompt = String::new();
    push_str(&mut user_prompt, CHARACTER_MENTIONS_PART_0);
    push_str(&mut user_prompt, chapter_num.as_str());
    push_str(&mut user_prompt, CHARACTER_MENTIONS_PART_1);
    push_str(&mut user_prompt, title.as_str());
    push_str(&mut user_prompt, CHARACTER_MENTIONS_PART_2);
    push_str(&mut user_prompt, source_language.as_str());
    push_str(&mut user_prompt, CHARACTER_MENTIONS_PART_3);
    push_str(&mut user_prompt, prior_context.as_str());
    push_str(&mut user_prompt, CHARACTER_MENTIONS_PART_4);
    push_str(&mut user_prompt, character_json);
    push_str(&mut user_prompt, CHARACTER_MENTIONS_PART_5);
    push_str(&mut user_prompt, input.text.as_str());
    push_str(&mut user_prompt, CHARACTER_MENTIONS_PART_6);
    DraftExtractionPrompt {
        schema_version: CHARACTER_EXTRACTION_SCHEMA_VERSION,
        system_prompt: crate::text::owned(CHARACTER_SYSTEM_PROMPT),
        user_prompt,
    }
}
pub const CHARACTER_OCCURRENCE_CONFIRMATION_PART_0: &'static str = "Chapter number: ";
pub const CHARACTER_OCCURRENCE_CONFIRMATION_PART_1: &'static str = "\nChapter title: ";
pub const CHARACTER_OCCURRENCE_CONFIRMATION_PART_2: &'static str = "\nSource language: ";
pub const CHARACTER_OCCURRENCE_CONFIRMATION_PART_3: &'static str = "\n\nAllowed prior context:\n";
pub const CHARACTER_OCCURRENCE_CONFIRMATION_PART_4: &'static str = "\n\nCharacter loaded from DB or current run:\n";
pub const CHARACTER_OCCURRENCE_CONFIRMATION_PART_5: &'static str = "\n\nSurface scanned by backend:\n";
pub const CHARACTER_OCCURRENCE_CONFIRMATION_PART_6: &'static str = "\n\nOccurrence context:\n<<<CONTEXT\n";
pub const CHARACTER_OCCURRENCE_CONFIRMATION_PART_7: &'static str = "\nCONTEXT\n\nBackend đã exact-scan surface trong raw text và tự tính offset. Bạn không được trả offset.\nTrong Occurrence context, đúng occurrence đang xét được bọc bằng [[ và ]].\nChỉ xác nhận surface trong context này có đang nhắc đến đúng nhân vật trong Character loaded from DB hay không.\nTrả false nếu surface chỉ là danh từ chung, địa danh, vật phẩm, động từ/tính từ, nhóm người chung, hoặc đang nhắc đến người khác.\nTrả true nếu surface là tên, biệt danh, danh xưng, vai trò gia đình/xã hội, hoặc cách gọi ngắn của đúng nhân vật trong context này.\n\nChỉ trả JSON array đúng một object:\n[\n  {\n    \"is_character_mention\": true,\n    \"confidence\": 0.0,\n    \"reason\": \"Lý do ngắn\"\n  }\n]";

/// The user prompt of `build_character_occurrence_confirmation_prompt`, with the values filled in.
pub open spec fn character_occurrence_confirmation_user_prompt(chapter_num: Seq<char>, title: Seq<char>, source_language: Seq<char>, prior_context: Seq<char>, text: Seq<char>, character_json: Seq<char>, surface: Seq<char>) -> Seq<char> {
    CHARACTER_OCCURRENCE_CONFIRMATION_PART_0@
        + chapter_num
        + CHARACTER_OCCURRENCE_CONFIRMATION_PART_1@
        + title
        + CHARACTER_OCCURRENCE_CONFIRMATION_PART_2@
        + source_language
        + CHARACTER_OCCURRENCE_CONFIRMATION_PART_3@
        + prior_context
        + CHARACTER_OCCURRENCE_CONFIRMATION_PART_4@
        + character_json
        + CHARACTER_OCCURRENCE_CONFIRMATION_PART_5@
        + surface
        + CHARACTER_OCCURRENCE_CONFIRMATION_PART_6@
        + text
        + CHARACTER_OCCURRENCE_CONFIRMATION_PART_7@
}

pub fn build_character_occurrence_confirmation_prompt(input: &DraftExtractionInput, character_json: &str, surface: &str) -> (r: DraftExtractionPrompt)
    ensures
        r.schema_version@ == CHARACTER_EXTRACTION_SCHEMA_VERSION@,
        r.system_prompt@ == CHARACTER_SYSTEM_PROMPT@,
        r.user_prompt@ == character_occurrence_confirmation_user_prompt(int_decimal(input.chapter_num as int), prompt_title(*input), prompt_source_language(*input), prompt_prior_context(*input), input.text@, character_json@, surface@),
{
    let title = trimmed_or_default(&input.title, DEFAULT_CHAPTER_TITLE);
    let source_language = trimmed_or_default(&input.source_language, DEFAULT_SOURCE_LANGUAGE);
    let prior_context = trimmed_or_default(&input.prior_context, DEFAULT_PRIOR_CONTEXT);
    let chapter_num = i64_to_string(input.chapter_num);
    let mut user_prompt = String::new();
    push_str(&mut user_prompt, CHARACTER_OCCURRENCE_CONFIRMATION_PART_0);
    push_str(&mut user_prompt, chapter_num.as_str());
    push_str(&mut user_prompt, CHARACTER_OCCURRENCE_CONFIRMATION_PART_1);
    push_str(&mut user_prompt, title.as_str());
    push_str(&mut user_prompt, CHARACTER_OCCURRENCE_CONFIRMATION_PART_2);
    push_str(&mut user_prompt, source_language.as_str());
    push_str(&mut user_prompt, CHARACTER_OCCURRENCE_CONFIRMATION_PART_3);
    push_str(&mut user_prompt, prior_context.as_str());
    push_str(&mut user_prompt, CHARACTER_OCCURRENCE_CONFIRMATION_PART_4);
    push_str(&mut user_prompt, character_json);
    push_str(&mut user_prompt, CHARACTER_OCCURRENCE_CONFIRMATION_PART_5);
    push_str(&mut user_prompt, surface);
    push_str(&mut user_prompt, CHARACTER_OCCURRENCE_CONFIRMATION_PART_6);
    push_str(&mut user_prompt, input.text.as_str());
    push_str(&mut user_prompt, CHARACTER_OCCURRENCE_CONFIRMATION_PART_7);
    DraftExtractionPrompt {
        schema_version: CHARACTER_EXTRACTION_SCHEMA_VERSION,
        system_prompt: crate::text::owned(CHARACTER_SYSTEM_PROMPT),
        user_prompt,
    }
}
pub const CHARACTER_FIELDS_PART_0: &'static str = "Chapter number: ";
pub const CHARACTER_FIELDS_PART_1: &'static str = "\nChapter title: ";
pub const CHARACTER_FIELDS_PART_2: &'static str = "\nSource language: ";
pub const CHARACTER_FIELDS_PART_3: &'static str = "\n\nAllowed prior context:\n";
pub const CHARACTER_FIELDS_PART_4: &'static str = "\n\nTARGET_CHARACTER_JSON:\n";
pub const CHARACTER_FIELDS_PART_5: &'static str = "\n\nTARGET TASK:\nBạn chỉ đang trích xuất field cho đúng một nhân vật duy nhất trong TARGET_CHARACTER_JSON.\nKhông trích xuất field cho bất kỳ nhân vật nào khác trong TARGET_CONTEXTS.\n\nTARGET_CONTEXTS:\n<<<TARGET_CONTEXTS\n";
pub const CHARACTER_FIELDS_PART_6: &'static str = "\nTARGET_CONTEXTS\n\nTARGET_CONTEXTS đã được backend chọn từ đoạn hiện tại. Occurrence của target được đánh dấu bằng [[...]].\n\nTrích xuất các field nhỏ chỉ cho nhân vật thật được định danh bởi các occurrence [[...]] trong TARGET_CONTEXTS.\nKhông trả mention trong bước này.\nKhông trích xuất nhân vật khác làm record riêng.\nTARGET_CHARACTER_JSON là owner duy nhất của mọi field trả về. Nếu fact thuộc người khác, trả [] hoặc bỏ value đó.\nFields pass chỉ được trả một trong các field_key sau:\n- \"appearance\" với field_label \"Ngoại hình\".\nKhông trả field về tên, họ tên, tên thật, tên gọi khác, biệt danh, danh xưng, quan hệ, trạng thái, ghi chú, năng lực, vật phẩm, tổ chức, địa điểm, sự kiện, mục tiêu, hành động, cảm xúc hoặc thái độ.\n\nLuật owner bắt buộc:\n- Nếu context mô tả \"một người\", \"vị khách\", \"người đó\", \"ông ta\", rồi xác định người đó là [[target]], mô tả đó thuộc target. Được lấy mô tả, nhưng không lấy nhãn quan hệ.\n- Nếu [[target]] chỉ là cụm quan hệ, họ hàng, xưng hô, người được nhắc tới, người được chào, người được nghĩ tới, người được nhìn thấy, hoặc đối tượng của hành động/cảm xúc của nhân vật khác, bỏ qua candidate đó.\n- Không lấy cảm xúc, trạng thái, lời nói, hành động, thói quen hoặc sự kiện thoáng qua.\n- Nếu candidate là quan hệ A-B, bỏ qua vì Relationship là pipeline riêng.\n- Nếu candidate là cảm xúc, suy nghĩ, hành động hoặc ý kiến của nhân vật không được đánh dấu [[...]], bỏ qua.\n- Nếu candidate thuộc bất kỳ nhân vật không được đánh dấu [[...]], bỏ qua.\n- Nếu chỉ có quan hệ, cách gọi, trạng thái hoặc ghi chú về target mà không có ngoại hình rõ ràng của target, trả [].\n- Không cố tạo field để lấp output. Không chắc thì trả [].\n\nField hợp lệ duy nhất:\n- appearance: chỉ lấy thuộc tính thị giác cụ thể và tương đối tĩnh của target: dáng người, cơ thể, khuôn mặt, da, tóc, mắt, tuổi tác nhìn thấy được, trang phục, phụ kiện, vết sẹo, dấu hiệu bề ngoài hoặc mô tả nhìn thấy được.\n\nLuật loại trừ cho appearance:\n- Không lấy hành động, hoạt động, tư thế tạm thời, thói quen, sự kiện đang diễn ra hoặc việc nhân vật đang làm, kể cả khi quote có target.\n- Không lấy âm thanh, giọng nói, tiếng động, triệu chứng thoáng qua, biểu hiện cơ thể nhất thời hoặc phản ứng sinh lý.\n- Không lấy cảm xúc, tinh thần, suy nghĩ, ý chí, nỗi sợ, sự tự tin, thái độ, vẻ mặt, thần sắc, ánh nhìn, biểu cảm, đánh giá xã hội hoặc nhận xét tính cách.\n- Không lấy quan hệ, vai trò, chức vụ, cách gọi, danh xưng, địa vị hoặc nhóm tuổi nếu không kèm thuộc tính bề ngoài cụ thể.\n- Không trả value phủ định, value nói thiếu dữ liệu, hoặc nhận xét rằng context không có mô tả ngoại hình.\n- Nếu candidate trả lời câu hỏi \"đang làm gì\", \"đang cảm thấy gì\", \"thái độ gì\", \"quan hệ gì\" hoặc \"xảy ra chuyện gì\", candidate đó không phải appearance.\n- Chỉ giữ candidate trả lời được câu hỏi \"trông như thế nào\", \"mặc gì\", \"dáng vóc/khuôn mặt/da/tóc/mắt/dấu hiệu bề ngoài ra sao\".\n- Nếu quote vừa có target vừa có hành động nhưng không có thuộc tính bề ngoài cụ thể, trả [].\n\nBài kiểm tra bắt buộc trước khi trả appearance:\n1. Quote có mô tả trực tiếp thuộc tính bề ngoài của target không? Nếu không, trả [].\n2. Value có còn đúng nếu bỏ toàn bộ động từ, hành động, cảm xúc, thái độ, âm thanh và sự kiện khỏi quote không? Nếu không, trả [].\n3. Value có mô tả đặc điểm có thể nhìn thấy trên thân thể, khuôn mặt, da, tóc, mắt, trang phục, phụ kiện hoặc dấu vết bề ngoài không? Nếu không, trả [].\n4. Value có thể thay đổi ngay sau vài giây hoặc vài phút vì hành động/cảm xúc/tình huống không? Nếu có, trả [].\n5. Value có phải biểu cảm gương mặt, thần thái, phản ứng, triệu chứng hoặc thái độ nhất thời không? Nếu có, trả [].\n\nfield_key phải đúng \"appearance\", không tự tạo field_key khác.\nfield_label phải đúng \"Ngoại hình\".\nvalue phải là cụm danh từ hoặc cụm tính từ ngắn về bề ngoài, không phải câu hoàn chỉnh, không phải hành động, không phải trạng thái.\nMỗi value bắt buộc có evidence.quote rõ trong TARGET_CONTEXTS.\nMỗi evidence.quote bắt buộc phải chứa occurrence [[...]] của target. Nếu quote không chứa marker [[...]], bỏ value đó.\nMỗi evidence.reason phải bắt đầu bằng \"Thuộc TARGET vì\" và giải thích vì sao quote đó mô tả bề ngoài nhìn thấy được của chính target, không chỉ giải thích ý nghĩa của value.\nChỉ trả value khi bạn tự tin cao. Nếu thông tin chưa chắc chắn, quote không chứng minh trực tiếp target, hoặc candidate chỉ là suy diễn, hãy bỏ value thay vì trả confidence thấp.\nTối đa 1 field, tối đa 2 values.\n\nChỉ trả JSON array trực tiếp:\n[\n  {\n    \"field_key\": \"appearance\",\n    \"field_label\": \"Ngoại hình\",\n    \"values\": [\n      {\n        \"value\": \"Giá trị\",\n        \"confidence\": 0.0,\n        \"evidence\": [\n          {\n            \"chapter_num\": ";
pub const CHARACTER_FIELDS_PART_7: &'static str = ",\n            \"quote\": \"trích dẫn ngắn trong đoạn\",\n            \"reason\": \"vì sao quote này chứng minh value\"\n          }\n        ]\n      }\n    ]\n  }\n]";

/// The user prompt of `build_character_fields_prompt`, with the values filled in.
pub open spec fn character_fields_user_prompt(chapter_num: Seq<char>, title: Seq<char>, source_language: Seq<char>, prior_context: Seq<char>, text: Seq<char>, character_json: Seq<char>) -> Seq<char> {
    CHARACTER_FIELDS_PART_0@
        + chapter_num
        + CHARACTER_FIELDS_PART_1@
        + title
        + CHARACTER_FIELDS_PART_2@
        + source_language
        + CHARACTER_FIELDS_PART_3@
        + prior_context
        + CHARACTER_FIELDS_PART_4@
        + character_json
        + CHARACTER_FIELDS_PART_5@
        + text
        + CHARACTER_FIELDS_PART_6@
        + chapter_num
        + CHARACTER_FIELDS_PART_7@
}

pub fn build_character_fields_prompt(input: &DraftExtractionInput, character_json: &str) -> (r: DraftExtractionPrompt)
    ensures
        r.schema_version@ == CHARACTER_EXTRACTION_SCHEMA_VERSION@,
        r.system_prompt@ == CHARACTER_SYSTEM_PROMPT@,
        r.user_prompt@ == character_fields_user_prompt(int_decimal(input.chapter_num as int), prompt_title(*input), prompt_source_language(*input), prompt_prior_context(*input), input.text@, character_json@),
{
    let title = trimmed_or_default(&input.title, DEFAULT_CHAPTER_TITLE);
    let source_language = trimmed_or_default(&input.source_language, DEFAULT_SOURCE_LANGUAGE);
    let prior_context = trimmed_or_default(&input.prior_context, DEFAULT_PRIOR_CONTEXT);
    let chapter_num = i64_to_string(input.chapter_num);
    let mut user_prompt = String::new();
    push_str(&mut user_prompt, CHARACTER_FIELDS_PART_0);
    push_str(&mut user_prompt, chapter_num.as_str());
    push_str(&mut user_prompt, CHARACTER_FIELDS_PART_1);
    push_str(&mut user_prompt, title.as_str());
    push_str(&mut user_prompt, CHARACTER_FIELDS_PART_2);
    push_str(&mut user_prompt, source_language.as_str());
    push_str(&mut user_prompt, CHARACTER_FIELDS_PART_3);
    push_str(&mut user_prompt, prior_context.as_str());
    push_str(&mut user_prompt, CHARACTER_FIELDS_PART_4);
    push_str(&mut user_prompt, character_json);
    push_str(&mut user_prompt, CHARACTER_FIELDS_PART_5);
    push_str(&mut user_prompt, input.text.as_str());
    push_str(&mut user_prompt, CHARACTER_FIELDS_PART_6);
    push_str(&mut user_prompt, chapter_num.as_str());
    push_str(&mut user_prompt, CHARACTER_FIELDS_PART_7);
    DraftExtractionPrompt {
        schema_version: CHARACTER_EXTRACTION_SCHEMA_VERSION,
        system_prompt: crate::text::owned(CHARACTER_SYSTEM_PROMPT),
        user_prompt,
    }
}
pub const CHARACTER_FIELD_VALUE_VERIFICATION_PART_0: &'static str = "Chapter number: ";
pub const CHARACTER_FIELD_VALUE_VERIFICATION_PART_1: &'static str = "\nChapter title: ";
pub const CHARACTER_FIELD_VALUE_VERIFICATION_PART_2: &'static str = "\nSource language: ";
pub const CHARACTER_FIELD_VALUE_VERIFICATION_PART_3: &'static str = "\n\nAllowed prior context:\n";
pub const CHARACTER_FIELD_VALUE_VERIFICATION_PART_4: &'static str = "\n\nTARGET_CHARACTER_JSON:\n";
pub const CHARACTER_FIELD_VALUE_VERIFICATION_PART_5: &'static str = "\n\nFIELD_VALUE_JSON:\n";
pub const CHARACTER_FIELD_VALUE_VERIFICATION_PART_6: &'static str = "\n\nTARGET_CONTEXTS:\n<<<TARGET_CONTEXTS\n";
pub const CHARACTER_FIELD_VALUE_VERIFICATION_PART_7: &'static str = "\nTARGET_CONTEXTS\n\nVai trò của bạn: bộ kiểm định field nhân vật trước khi ghi DB. Bạn chỉ quyết định FIELD_VALUE_JSON có được phép lưu cho đúng TARGET_CHARACTER_JSON hay không.\n\nLuật bắt buộc:\n- Chỉ dùng TARGET_CONTEXTS và evidence trong FIELD_VALUE_JSON.\n- Prior context chỉ giúp hiểu thể loại/bối cảnh, không được dùng làm evidence.\n- TARGET_CHARACTER_JSON là owner duy nhất được phép nhận field.\n- Nếu value thuộc nhân vật khác, trả accepted false và semantic_class \"wrong_owner\".\n- Nếu quote chỉ nhắc target như người nhìn, người nghe, người nghĩ tới, người được gọi, người được chào, hoặc đối tượng của hành động nhưng value mô tả người khác, trả accepted false.\n- Nếu quote không trực tiếp chứng minh value, trả accepted false.\n\nField hiện tại chỉ cho phép appearance.\nChỉ accepted true khi value là đặc điểm bề ngoài tương đối ổn định hoặc trực quan của chính target:\n- physical_appearance: cơ thể, dáng người, khuôn mặt, da, tóc, mắt, vết sẹo, dấu hiệu bề ngoài.\n- clothing: trang phục, phụ kiện, vật đang mặc/đeo.\n- age_or_build: tuổi tác nhìn thấy được, vóc dáng.\n\nPhải accepted false với các semantic_class sau:\n- temporary_state: mệt mỏi, bị thương thoáng qua, trạng thái hiện tại, không động thân, phản ứng nhất thời.\n- action_or_posture: khom người, đứng, đi, chạy, leo, hút thuốc, ngủ, nói, nhìn, ôm, cắn răng, đang làm gì.\n- emotion_or_attitude: ngạo mạn, kính ý, khinh khỉnh, lạnh lùng, sợ hãi, vui buồn, thần sắc, vẻ mặt, ánh nhìn, thái độ.\n- relationship_or_role: quan hệ, chức vụ, danh xưng, vai trò xã hội, cách gọi.\n- wrong_owner: value mô tả nhân vật khác.\n- no_direct_evidence: quote không chứng minh value.\n- uncertain: không chắc.\n\naccepted chỉ được true khi:\n1. owner là đúng target.\n2. semantic_class là physical_appearance, clothing hoặc age_or_build.\n3. evidence quote chứng minh trực tiếp value.\n4. confidence >= 0.85.\n\nNếu có bất kỳ nghi ngờ nào, accepted false.\nowner_name là tên nhân vật thật sự được mô tả nếu xác định được; nếu không thì null.\nconfidence là độ chắc của quyết định accepted/reject, từ 0.0 đến 1.0.\n\nChỉ trả JSON array trực tiếp với đúng một object:\n[\n  {\n    \"accepted\": false,\n    \"semantic_class\": \"uncertain\",\n    \"owner_name\": null,\n    \"confidence\": 0.0,\n    \"reason\": \"lý do ngắn dựa trên evidence hiện tại\",\n    \"evidence\": [\n      {\n        \"chapter_num\": ";
pub const CHARACTER_FIELD_VALUE_VERIFICATION_PART_8: &'static str = ",\n        \"quote\": \"trích dẫn ngắn trong TARGET_CONTEXTS\",\n        \"reason\": \"vì sao quyết định này đúng\"\n      }\n    ]\n  }\n]";

/// The user prompt of `build_character_field_value_verification_prompt`, with the values filled in.
pub open spec fn character_field_value_verification_user_prompt(chapter_num: Seq<char>, title: Seq<char>, source_language: Seq<char>, prior_context: Seq<char>, text: Seq<char>, character_json: Seq<char>, field_value_json: Seq<char>) -> Seq<char> {
    CHARACTER_FIELD_VALUE_VERIFICATION_PART_0@
        + chapter_num
        + CHARACTER_FIELD_VALUE_VERIFICATION_PART_1@
        + title
        + CHARACTER_FIELD_VALUE_VERIFICATION_PART_2@
        + source_language
        + CHARACTER_FIELD_VALUE_VERIFICATION_PART_3@
        + prior_context
        + CHARACTER_FIELD_VALUE_VERIFICATION_PART_4@
        + character_json
        + CHARACTER_FIELD_VALUE_VERIFICATION_PART_5@
        + field_value_json
        + CHARACTER_FIELD_VALUE_VERIFICATION_PART_6@
        + text
        + CHARACTER_FIELD_VALUE_VERIFICATION_PART_7@
        + chapter_num
        + CHARACTER_FIELD_VALUE_VERIFICATION_PART_8@
}

pub fn build_character_field_value_verification_prompt(input: &DraftExtractionInput, character_json: &str, field_value_json: &str) -> (r: DraftExtractionPrompt)
    ensures
        r.schema_version@ == CHARACTER_EXTRACTION_SCHEMA_VERSION@,
        r.system_prompt@ == CHARACTER_SYSTEM_PROMPT@,
        r.user_prompt@ == character_field_value_verification_user_prompt(int_decimal(input.chapter_num as int), prompt_title(*input), prompt_source_language(*input), prompt_prior_context(*input), input.text@, character_json@, field_value_json@),
{
    let title = trimmed_or_default(&input.title, DEFAULT_CHAPTER_TITLE);
    let source_language = trimmed_or_default(&input.source_language, DEFAULT_SOURCE_LANGUAGE);
    let prior_context = trimmed_or_default(&input.prior_context, DEFAULT_PRIOR_CONTEXT);
    let chapter_num = i64_to_string(input.chapter_num);
    let mut user_prompt = String::new();
    push_str(&mut user_prompt, CHARACTER_FIELD_VALUE_VERIFICATION_PART_0);
    push_str(&mut user_prompt, chapter_num.as_str());
    push_str(&mut user_prompt, CHARACTER_FIELD_VALUE_VERIFICATION_PART_1);
    push_str(&mut user_prompt, title.as_str());
    push_str(&mut user_prompt, CHARACTER_FIELD_VALUE_VERIFICATION_PART_2);
    push_str(&mut user_prompt, source_language.as_str());
    push_str(&mut user_prompt, CHARACTER_FIELD_VALUE_VERIFICATION_PART_3);
    push_str(&mut user_prompt, prior_context.as_str());
    push_str(&mut user_prompt, CHARACTER_FIELD_VALUE_VERIFICATION_PART_4);
    push_str(&mut user_prompt, character_json);
    push_str(&mut user_prompt, CHARACTER_FIELD_VALUE_VERIFICATION_PART_5);
    push_str(&mut user_prompt, field_value_json);
    push_str(&mut user_prompt, CHARACTER_FIELD_VALUE_VERIFICATION_PART_6);
    push_str(&mut user_prompt, input.text.as_str());
    push_str(&mut user_prompt, CHARACTER_FIELD_VALUE_VERIFICATION_PART_7);
    push_str(&mut user_prompt, chapter_num.as_str());
    push_str(&mut user_prompt, CHARACTER_FIELD_VALUE_VERIFICATION_PART_8);
    DraftExtractionPrompt {
        schema_version: CHARACTER_EXTRACTION_SCHEMA_VERSION,
        system_prompt: crate::text::owned(CHARACTER_SYSTEM_PROMPT),
        user_prompt,
    }
}
pub const CHARACTER_RELATIONSHIP_PAIR_PART_0: &'static str = "Chapter number: ";
pub const CHARACTER_RELATIONSHIP_PAIR_PART_1: &'static str = "\nChapter title: ";
pub const CHARACTER_RELATIONSHIP_PAIR_PART_2: &'static str = "\nSource language: ";
pub const CHARACTER_RELATIONSHIP_PAIR_PART_3: &'static str = "\n\nAllowed prior context:\n";
pub const CHARACTER_RELATIONSHIP_PAIR_PART_4: &'static str = "\n\nCHARACTER_A_JSON:\n";
pub const CHARACTER_RELATIONSHIP_PAIR_PART_5: &'static str = "\n\nCHARACTER_B_JSON:\n";
pub const CHARACTER_RELATIONSHIP_PAIR_PART_6: &'static str = "\n\nCurrent full chapter:\n<<<CHAPTER_TEXT\n";
pub const CHARACTER_RELATIONSHIP_PAIR_PART_7: &'static str = "\nCHAPTER_TEXT\n\nVai trò của bạn: nhà phân tích quan hệ nhân vật cho tiểu thuyết nhiều thể loại. Bạn phải đọc chương như một biên tập viên story bible, tự nhận diện bối cảnh thể loại và hệ thống xã hội của chương trước khi đặt nhãn quan hệ.\n\nNhiệm vụ: xác định quan hệ trực tiếp giữa đúng hai nhân vật canonical A và B trong chương hiện tại.\nname và aliases trong CHARACTER_A_JSON/CHARACTER_B_JSON chỉ là surface để nhận diện cùng một nhân vật trong CHAPTER_TEXT.\nKhông tạo quan hệ giữa alias với nhân vật khác. Alias không phải node riêng.\nKhông xét quan hệ với nhân vật ngoài A và B.\nKhông dùng kiến thức ngoài chương hiện tại, không dùng future chapter, không suy diễn từ prior context.\n\nQuy trình suy luận nội bộ bắt buộc, nhưng không được in ra ngoài JSON:\n1. Tự nhận diện bối cảnh thể loại, tầng lớp xã hội và quy ước xưng hô của chương từ chính CHAPTER_TEXT.\n2. Dựa trên bối cảnh đó, chọn quan hệ đúng với evidence trong chương, không mặc định vào bất kỳ nhóm quan hệ dựng sẵn nào.\n3. Ưu tiên quan hệ cụ thể nhất được chứng minh bởi quote, nhưng không bịa nếu quote chỉ cho thấy tương tác thoáng qua.\n4. Nếu có nhiều lớp quan hệ, chọn lớp quan hệ cốt lõi nhất giữa A và B trong chương này.\n\nChỉ trả quan hệ khi CHAPTER_TEXT có bằng chứng rõ ràng rằng A và B có quan hệ với nhau.\nNếu chương chỉ nhắc A và B riêng rẽ nhưng không nói quan hệ giữa họ, trả [].\nNếu chỉ có hai nhân vật cùng xuất hiện/cùng nói chuyện/cùng đi qua một cảnh mà không nêu quan hệ cụ thể, trả [].\nNếu quan hệ chỉ là phỏng đoán, cảm giác mơ hồ hoặc cần kiến thức ngoài chương, trả [].\n\nKhông được dồn mọi thứ về một kiểu nhãn quen thuộc chỉ vì có cách xưng hô giống quan hệ đó. Nếu cách xưng hô chỉ là lối gọi xã hội, biệt danh, kính ngữ hoặc cách gọi trong cộng đồng, hãy chọn nhãn đúng theo evidence hoặc trả [] nếu không rõ.\nKhông dùng nhãn quá chung như \"có quan hệ\", \"liên quan\", \"tương tác\", \"xuất hiện cùng\" nếu có thể chọn nhãn cụ thể hơn từ evidence.\n\nMỗi quan hệ phải có:\n- relationship_type: ASCII snake_case do bạn tạo từ quan hệ quan sát được.\n- a_to_b_label: nhãn tiếng Việt có dấu mô tả A gọi/quan hệ với B.\n- b_to_a_label: nhãn tiếng Việt có dấu mô tả B gọi/quan hệ với A.\n- confidence: 0..1.\n- evidence: quote ngắn từ CHAPTER_TEXT chứng minh quan hệ A-B.\n\nNếu quan hệ hai chiều dùng cùng một nhãn, a_to_b_label và b_to_a_label có thể giống nhau.\nNếu chỉ biết quan hệ chung mà không biết chiều cụ thể, dùng cùng một nhãn tổng quát cho cả hai chiều.\nKhông trả hành động, cảm xúc, ngoại hình, chức vụ độc lập, sự kiện hoặc lời thoại làm quan hệ.\nKhông trả quan hệ nếu evidence.quote không nhắc hoặc không nối được cả A và B thông qua name/alias/ngữ cảnh rõ ràng.\nrelationship_type phải là semantic key của quan hệ thật, ví dụ tự tạo từ ý nghĩa evidence; không copy nguyên văn một alias hoặc danh xưng nếu đó không phải loại quan hệ.\na_to_b_label và b_to_a_label phải là nhãn đọc được trên UI, ngắn, cụ thể, có dấu, và phản ánh đúng chiều quan hệ.\n\nChỉ trả JSON array trực tiếp:\n[\n  {\n    \"relationship_type\": \"ascii_snake_case_relation\",\n    \"a_to_b_label\": \"Nhãn quan hệ từ A đến B\",\n    \"b_to_a_label\": \"Nhãn quan hệ từ B đến A\",\n    \"confidence\": 0.0,\n    \"evidence\": [\n      {\n        \"chapter_num\": ";
pub const CHARACTER_RELATIONSHIP_PAIR_PART_8: &'static str = ",\n        \"quote\": \"trích dẫn ngắn trong chương\",\n        \"reason\": \"vì sao quote này chứng minh quan hệ giữa A và B\"\n      }\n    ]\n  }\n]";

/// The user prompt of `build_character_relationship_pair_prompt`, with the values filled in.
pub open spec fn character_relationship_pair_user_prompt(chapter_num: Seq<char>, title: Seq<char>, source_language: Seq<char>, prior_context: Seq<char>, text: Seq<char>, character_a_json: Seq<char>, character_b_json: Seq<char>) -> Seq<char> {
    CHARACTER_RELATIONSHIP_PAIR_PART_0@
        + chapter_num
        + CHARACTER_RELATIONSHIP_PAIR_PART_1@
        + title
        + CHARACTER_RELATIONSHIP_PAIR_PART_2@
        + source_language
        + CHARACTER_RELATIONSHIP_PAIR_PART_3@
        + prior_context
        + CHARACTER_RELATIONSHIP_PAIR_PART_4@
        + character_a_json
        + CHARACTER_RELATIONSHIP_PAIR_PART_5@
        + character_b_json
        + CHARACTER_RELATIONSHIP_PAIR_PART_6@
        + text
        + CHARACTER_RELATIONSHIP_PAIR_PART_7@
        + chapter_num
        + CHARACTER_RELATIONSHIP_PAIR_PART_8@
}

pub fn build_character_relationship_pair_prompt(input: &DraftExtractionInput, character_a_json: &str, character_b_json: &str) -> (r: DraftExtractionPrompt)
    ensures
        r.schema_version@ == CHARACTER_EXTRACTION_SCHEMA_VERSION@,
        r.system_prompt@ == CHARACTER_SYSTEM_PROMPT@,
        r.user_prompt@ == character_relationship_pair_user_prompt(int_decimal(input.chapter_num as int), prompt_title(*input), prompt_source_language(*input), prompt_prior_context(*input), input.text@, character_a_json@, character_b_json@),
{
    let title = trimmed_or_default(&input.title, DEFAULT_CHAPTER_TITLE);
    let source_language = trimmed_or_default(&input.source_language, DEFAULT_SOURCE_LANGUAGE);
    let prior_context = trimmed_or_default(&input.prior_context, DEFAULT_PRIOR_CONTEXT);
    let chapter_num = i64_to_string(input.chapter_num);
    let mut user_prompt = String::new();
    push_str(&mut user_prompt, CHARACTER_RELATIONSHIP_PAIR_PART_0);
    push_str(&mut user_prompt, chapter_num.as_str());
    push_str(&mut user_prompt, CHARACTER_RELATIONSHIP_PAIR_PART_1);
    push_str(&mut user_prompt, title.as_str());
    push_str(&mut user_prompt, CHARACTER_RELATIONSHIP_PAIR_PART_2);
    push_str(&mut user_prompt, source_language.as_str());
    push_str(&mut user_prompt, CHARACTER_RELATIONSHIP_PAIR_PART_3);
    push_str(&mut user_prompt, prior_context.as_str());
    push_str(&mut user_prompt, CHARACTER_RELATIONSHIP_PAIR_PART_4);
    push_str(&mut user_prompt, character_a_json);
    push_str(&mut user_prompt, CHARACTER_RELATIONSHIP_PAIR_PART_5);
    push_str(&mut user_prompt, character_b_json);
    push_str(&mut user_prompt, CHARACTER_RELATIONSHIP_PAIR_PART_6);
    push_str(&mut user_prompt, input.text.as_str());
    push_str(&mut user_prompt, CHARACTER_RELATIONSHIP_PAIR_PART_7);
    push_str(&mut user_prompt, chapter_num.as_str());
    push_str(&mut user_prompt, CHARACTER_RELATIONSHIP_PAIR_PART_8);
    DraftExtractionPrompt {
        schema_version: CHARACTER_EXTRACTION_SCHEMA_VERSION,
        system_prompt: crate::text::owned(CHARACTER_SYSTEM_PROMPT),
        user_prompt,
    }
}
pub const CHARACTER_RELATIONSHIP_CANDIDATE_PART_0: &'static str = "Chapter number: ";
pub const CHARACTER_RELATIONSHIP_CANDIDATE_PART_1: &'static str = "\nChapter title: ";
pub const CHARACTER_RELATIONSHIP_CANDIDATE_PART_2: &'static str = "\nSource language: ";
pub const CHARACTER_RELATIONSHIP_CANDIDATE_PART_3: &'static str = "\n\nAllowed prior context:\n";
pub const CHARACTER_RELATIONSHIP_CANDIDATE_PART_4: &'static str = "\n\nCHARACTER_NODES_JSON:\n";
pub const CHARACTER_RELATIONSHIP_CANDIDATE_PART_5: &'static str = "\n\nCurrent full chapter:\n<<<CHAPTER_TEXT\n";
pub const CHARACTER_RELATIONSHIP_CANDIDATE_PART_6: &'static str = "\nCHAPTER_TEXT\n\nVai trò của bạn: bộ đọc quan hệ nhân vật cho story graph. Bạn chỉ làm việc với các nhân vật đã có trong CHARACTER_NODES_JSON.\n\nNhiệm vụ:\n- Tìm các quan hệ trực tiếp giữa hai nhân vật trong CHARACTER_NODES_JSON khi CHAPTER_TEXT có bằng chứng hiện tại.\n- name và aliases chỉ là surface nhận diện canonical character; alias không phải node riêng.\n- source_name và target_name phải khớp name canonical trong CHARACTER_NODES_JSON, không dùng alias làm endpoint.\n- Không tạo nhân vật mới, không tạo quan hệ với nhân vật ngoài CHARACTER_NODES_JSON.\n- Không dùng kiến thức ngoài chương hiện tại, không dùng chương tương lai, không dùng prior context làm evidence.\n\nLuật evidence:\n- Chỉ trả quan hệ khi quote trong CHAPTER_TEXT nối được hai nhân vật bằng tên, alias, hoặc ngữ cảnh câu gần rõ ràng.\n- Nếu hai nhân vật chỉ cùng xuất hiện nhưng không có quan hệ cụ thể, bỏ qua.\n- Nếu quan hệ là phỏng đoán, suy diễn xã hội, hoặc cần thông tin ngoài quote, bỏ qua.\n- Nếu relation chỉ là alias/cách gọi của cùng một người, bỏ qua vì alias ownership xử lý ở pipeline khác.\n- Nếu text cho thấy quan hệ thay đổi trong chương, trả quan hệ mới nhất có evidence rõ; có thể ghi chú previous trong reason nhưng không thêm field khác.\n- Chỉ trả quan hệ có tính ổn định trong story graph. Hành động một lần, lời chào, lời chúc, nhìn/nghe/đi cùng, tiếp đón, báo cáo trong một cảnh, đánh nhau, quan sát, cảm xúc hoặc sự kiện thoáng qua không phải quan hệ ổn định.\n- Nếu evidence chỉ chứng minh một event hoặc interaction tạm thời, bỏ qua thay vì cố đặt nhãn quan hệ.\n\nLuật nhãn:\n- Không ép vào taxonomy cố định. Tự tạo nhãn ngắn, cụ thể, tự nhiên theo evidence của truyện.\n- Không dùng nhãn chung chung như \"có quan hệ\", \"liên quan\", \"tương tác\", \"xuất hiện cùng\", \"không rõ\".\n- relationship_kind phải đúng \"stable_relation\" cho mọi item được trả. Nếu không chắc stable_relation, không trả item đó.\n- relationship_type là ASCII snake_case semantic key do bạn tạo từ ý nghĩa quan hệ.\n- source_to_target_label và target_to_source_label là nhãn tiếng Việt có dấu để hiển thị trên UI, đúng chiều quan hệ.\n\nMỗi item bắt buộc có quote ngắn từ CHAPTER_TEXT làm bằng chứng. Nếu không có bằng chứng, trả [].\n\nChỉ trả JSON array trực tiếp:\n[\n  {\n    \"source_name\": \"name canonical từ CHARACTER_NODES_JSON\",\n    \"target_name\": \"name canonical từ CHARACTER_NODES_JSON\",\n    \"relationship_kind\": \"stable_relation\",\n    \"relationship_type\": \"ascii_snake_case_relation\",\n    \"source_to_target_label\": \"Nhãn quan hệ từ source đến target\",\n    \"target_to_source_label\": \"Nhãn quan hệ từ target đến source\",\n    \"confidence\": 0.0,\n    \"evidence\": [\n      {\n        \"chapter_num\": ";
pub const CHARACTER_RELATIONSHIP_CANDIDATE_PART_7: &'static str = ",\n        \"quote\": \"trích dẫn ngắn trong chương\",\n        \"reason\": \"vì sao quote này chứng minh quan hệ trực tiếp giữa hai nhân vật\"\n      }\n    ]\n  }\n]";

/// The user prompt of `build_character_relationship_candidate_prompt`, with the values filled in.
pub open spec fn character_relationship_candidate_user_prompt(chapter_num: Seq<char>, title: Seq<char>, source_language: Seq<char>, prior_context: Seq<char>, text: Seq<char>, character_nodes_json: Seq<char>) -> Seq<char> {
    CHARACTER_RELATIONSHIP_CANDIDATE_PART_0@
        + chapter_num
        + CHARACTER_RELATIONSHIP_CANDIDATE_PART_1@
        + title
        + CHARACTER_RELATIONSHIP_CANDIDATE_PART_2@
        + source_language
        + CHARACTER_RELATIONSHIP_CANDIDATE_PART_3@
        + prior_context
        + CHARACTER_RELATIONSHIP_CANDIDATE_PART_4@
        + character_nodes_json
        + CHARACTER_RELATIONSHIP_CANDIDATE_PART_5@
        + text
        + CHARACTER_RELATIONSHIP_CANDIDATE_PART_6@
        + chapter_num
        + CHARACTER_RELATIONSHIP_CANDIDATE_PART_7@
}

pub fn build_character_relationship_candidate_prompt(input: &DraftExtractionInput, character_nodes_json: &str) -> (r: DraftExtractionPrompt)
    ensures
        r.schema_version@ == CHARACTER_EXTRACTION_SCHEMA_VERSION@,
        r.system_prompt@ == CHARACTER_SYSTEM_PROMPT@,
        r.user_prompt@ == character_relationship_candidate_user_prompt(int_decimal(input.chapter_num as int), prompt_title(*input), prompt_source_language(*input), prompt_prior_context(*input), input.text@, character_nodes_json@),
{
    let title = trimmed_or_default(&input.title, DEFAULT_CHAPTER_TITLE);
    let source_language = trimmed_or_default(&input.source_language, DEFAULT_SOURCE_LANGUAGE);
    let prior_context = trimmed_or_default(&input.prior_context, DEFAULT_PRIOR_CONTEXT);
    let chapter_num = i64_to_string(input.chapter_num);
    let mut user_prompt = String::new();
    push_str(&mut user_prompt, CHARACTER_RELATIONSHIP_CANDIDATE_PART_0);
    push_str(&mut user_prompt, chapter_num.as_str());
    push_str(&mut user_prompt, CHARACTER_RELATIONSHIP_CANDIDATE_PART_1);
    push_str(&mut user_prompt, title.as_str());
    push_str(&mut user_prompt, CHARACTER_RELATIONSHIP_CANDIDATE_PART_2);
    push_str(&mut user_prompt, source_language.as_str());
    push_str(&mut user_prompt, CHARACTER_RELATIONSHIP_CANDIDATE_PART_3);
    push_str(&mut user_prompt, prior_context.as_str());
    push_str(&mut user_prompt, CHARACTER_RELATIONSHIP_CANDIDATE_PART_4);
    push_str(&mut user_prompt, character_nodes_json);
    push_str(&mut user_prompt, CHARACTER_RELATIONSHIP_CANDIDATE_PART_5);
    push_str(&mut user_prompt, input.text.as_str());
    push_str(&mut user_prompt, CHARACTER_RELATIONSHIP_CANDIDATE_PART_6);
    push_str(&mut user_prompt, chapter_num.as_str());
    push_str(&mut user_prompt, CHARACTER_RELATIONSHIP_CANDIDATE_PART_7);
    DraftExtractionPrompt {
        schema_version: CHARACTER_EXTRACTION_SCHEMA_VERSION,
        system_prompt: crate::text::owned(CHARACTER_SYSTEM_PROMPT),
        user_prompt,
    }
}
pub const CHARACTER_RELATIONSHIP_VERIFICATION_PART_0: &'static str = "Chapter number: ";
pub const CHARACTER_RELATIONSHIP_VERIFICATION_PART_1: &'static str = "\nChapter title: ";
pub const CHARACTER_RELATIONSHIP_VERIFICATION_PART_2: &'static str = "\nSource language: ";
pub const CHARACTER_RELATIONSHIP_VERIFICATION_PART_3: &'static str = "\n\nAllowed prior context:\n";
pub const CHARACTER_RELATIONSHIP_VERIFICATION_PART_4: &'static str = "\n\nCHARACTER_A_JSON:\n";
pub const CHARACTER_RELATIONSHIP_VERIFICATION_PART_5: &'static str = "\n\nCHARACTER_B_JSON:\n";
pub const CHARACTER_RELATIONSHIP_VERIFICATION_PART_6: &'static str = "\n\nRELATIONSHIP_JSON:\n";
pub const CHARACTER_RELATIONSHIP_VERIFICATION_PART_7: &'static str = "\n\nCurrent full chapter:\n<<<CHAPTER_TEXT\n";
pub const CHARACTER_RELATIONSHIP_VERIFICATION_PART_8: &'static str = "\nCHAPTER_TEXT\n\nVai trò của bạn: bộ kiểm định quan hệ nhân vật trước khi ghi DB. Bạn chỉ quyết định RELATIONSHIP_JSON có phải là quan hệ đáng lưu trong story graph giữa CHARACTER_A_JSON và CHARACTER_B_JSON hay không.\n\nLuật bắt buộc:\n- Chỉ dùng CHAPTER_TEXT và evidence trong RELATIONSHIP_JSON.\n- Prior context chỉ giúp hiểu thể loại/bối cảnh, không được dùng làm evidence.\n- Không dùng kiến thức ngoài truyện, không dùng chương tương lai.\n- Alias chỉ dùng để nhận diện đúng hai character; alias không phải node riêng.\n- Nếu evidence chỉ chứng minh hai người cùng xuất hiện, cùng nói chuyện, cùng nhận lệnh, cùng tham gia một việc, nhìn/nghe/đi theo/ôm giúp/đưa đồ/trao tiền/báo cáo/chào hỏi trong một cảnh, trả accepted false.\n- Nếu label chỉ mô tả một event, hành động, cảm xúc, tư thế, lời thoại, quyết định một lần hoặc tương tác tạm thời, trả accepted false.\n- Nếu quote không chứng minh quan hệ có tính bền vững hoặc quan hệ hệ thống giữa hai nhân vật, trả accepted false.\n- Nếu quan hệ chỉ là alias/cách gọi của cùng một người, trả accepted false.\n\naccepted true chỉ khi relationship_scope thuộc một trong các loại sau:\n- kinship: huyết thống, gia đình, hôn nhân, thân thuộc ổn định.\n- organization_hierarchy: quan hệ cấp bậc, môn phái, tổ chức, chức vụ có hướng rõ giữa hai nhân vật.\n- stable_relationship: quan hệ xã hội ổn định hoặc quan hệ truyện có ý nghĩa bền qua ngoài cảnh hiện tại.\n\naccepted false cho các loại sau:\n- temporary_interaction: tương tác trong cảnh.\n- shared_event: cùng tham gia/cùng nhận một việc.\n- co_presence: chỉ cùng xuất hiện/cùng đứng/cùng ở cạnh.\n- scene_action: hành động một lần giữa hai người.\n- alias_or_same_person: thực ra là alias/cùng một người.\n- uncertain: không đủ chắc.\n\nNếu thể loại là tiên hiệp/kiếm hiệp/huyền huyễn, hãy chú ý quan hệ sư môn, môn phái, trưởng bối, hộ pháp, đường chủ, đệ tử, đồng môn chỉ được accepted true khi evidence chứng minh vai trò hệ thống giữa đúng hai character, không chỉ là một lần nói chuyện hoặc báo cáo.\n\nrelationship_scope phải là một trong:\nkinship, organization_hierarchy, stable_relationship, temporary_interaction, shared_event, co_presence, scene_action, alias_or_same_person, uncertain.\n\nowner_direction_ok phải true nếu source/target của label đúng chiều; false nếu label bị đảo chiều hoặc endpoint sai.\nconfidence là độ chắc của quyết định, từ 0.0 đến 1.0.\nNếu có bất kỳ nghi ngờ nào, accepted false.\n\nChỉ trả JSON array trực tiếp với đúng một object:\n[\n  {\n    \"accepted\": false,\n    \"relationship_scope\": \"uncertain\",\n    \"owner_direction_ok\": false,\n    \"confidence\": 0.0,\n    \"reason\": \"lý do ngắn dựa trên evidence hiện tại\",\n    \"evidence\": [\n      {\n        \"chapter_num\": ";
pub const CHARACTER_RELATIONSHIP_VERIFICATION_PART_9: &'static str = ",\n        \"quote\": \"trích dẫn ngắn trong chương\",\n        \"reason\": \"vì sao quyết định này đúng\"\n      }\n    ]\n  }\n]";

/// The user prompt of `build_character_relationship_verification_prompt`, with the values filled in.
pub open spec fn character_relationship_verification_user_prompt(chapter_num: Seq<char>, title: Seq<char>, source_language: Seq<char>, prior_context: Seq<char>, text: Seq<char>, character_a_json: Seq<char>, character_b_json: Seq<char>, relationship_json: Seq<char>) -> Seq<char> {
    CHARACTER_RELATIONSHIP_VERIFICATION_PART_0@
        + chapter_num
        + CHARACTER_RELATIONSHIP_VERIFICATION_PART_1@
        + title
        + CHARACTER_RELATIONSHIP_VERIFICATION_PART_2@
        + source_language
        + CHARACTER_RELATIONSHIP_VERIFICATION_PART_3@
        + prior_context
        + CHARACTER_RELATIONSHIP_VERIFICATION_PART_4@
        + character_a_json
        + CHARACTER_RELATIONSHIP_VERIFICATION_PART_5@
        + character_b_json
        + CHARACTER_RELATIONSHIP_VERIFICATION_PART_6@
        + relationship_json
        + CHARACTER_RELATIONSHIP_VERIFICATION_PART_7@
        + text
        + CHARACTER_RELATIONSHIP_VERIFICATION_PART_8@
        + chapter_num
        + CHARACTER_RELATIONSHIP_VERIFICATION_PART_9@
}

pub fn build_character_relationship_verification_prompt(input: &DraftExtractionInput, character_a_json: &str, character_b_json: &str, relationship_json: &str) -> (r: DraftExtractionPrompt)
    ensures
        r.schema_version@ == CHARACTER_EXTRACTION_SCHEMA_VERSION@,
        r.system_prompt@ == CHARACTER_SYSTEM_PROMPT@,
        r.user_prompt@ == character_relationship_verification_user_prompt(int_decimal(input.chapter_num as int), prompt_title(*input), prompt_source_language(*input), prompt_prior_context(*input), input.text@, character_a_json@, character_b_json@, relationship_json@),
{
    let title = trimmed_or_default(&input.title, DEFAULT_CHAPTER_TITLE);
    let source_language = trimmed_or_default(&input.source_language, DEFAULT_SOURCE_LANGUAGE);
    let prior_context = trimmed_or_default(&input.prior_context, DEFAULT_PRIOR_CONTEXT);
    let chapter_num = i64_to_string(input.chapter_num);
    let mut user_prompt = String::new();
    push_str(&mut user_prompt, CHARACTER_RELATIONSHIP_VERIFICATION_PART_0);
    push_str(&mut user_prompt, chapter_num.as_str());
    push_str(&mut user_prompt, CHARACTER_RELATIONSHIP_VERIFICATION_PART_1);
    push_str(&mut user_prompt, title.as_str());
    push_str(&mut user_prompt, CHARACTER_RELATIONSHIP_VERIFICATION_PART_2);
    push_str(&mut user_prompt, source_language.as_str());
    push_str(&mut user_prompt, CHARACTER_RELATIONSHIP_VERIFICATION_PART_3);
    push_str(&mut user_prompt, prior_context.as_str());
    push_str(&mut user_prompt, CHARACTER_RELATIONSHIP_VERIFICATION_PART_4);
    push_str(&mut user_prompt, character_a_json);
    push_str(&mut user_prompt, CHARACTER_RELATIONSHIP_VERIFICATION_PART_5);
    push_str(&mut user_prompt, character_b_json);
    push_str(&mut user_prompt, CHARACTER_RELATIONSHIP_VERIFICATION_PART_6);
    push_str(&mut user_prompt, relationship_json);
    push_str(&mut user_prompt, CHARACTER_RELATIONSHIP_VERIFICATION_PART_7);
    push_str(&mut user_prompt, input.text.as_str());
    push_str(&mut user_prompt, CHARACTER_RELATIONSHIP_VERIFICATION_PART_8);
    push_str(&mut user_prompt, chapter_num.as_str());
    push_str(&mut user_prompt, CHARACTER_RELATIONSHIP_VERIFICATION_PART_9);
    DraftExtractionPrompt {
        schema_version: CHARACTER_EXTRACTION_SCHEMA_VERSION,
        system_prompt: crate::text::owned(CHARACTER_SYSTEM_PROMPT),
        user_prompt,
    }
}
pub const CHARACTER_IDENTITY_MERGE_CONFIRMATION_PART_0: &'static str = "Chapter number: ";
pub const CHARACTER_IDENTITY_MERGE_CONFIRMATION_PART_1: &'static str = "\nChapter title: ";
pub const CHARACTER_IDENTITY_MERGE_CONFIRMATION_PART_2: &'static str = "\nSource language: ";
pub const CHARACTER_IDENTITY_MERGE_CONFIRMATION_PART_3: &'static str = "\n\nAllowed prior context:\n";
pub const CHARACTER_IDENTITY_MERGE_CONFIRMATION_PART_4: &'static str = "\n\nOBSERVED_IDENTITY_JSON:\n";
pub const CHARACTER_IDENTITY_MERGE_CONFIRMATION_PART_5: &'static str = "\n\nCANDIDATE_EXISTING_IDENTITY_JSON:\n";
pub const CHARACTER_IDENTITY_MERGE_CONFIRMATION_PART_6: &'static str = "\n\nCurrent chapter chunk:\n<<<CHAPTER_TEXT\n";
pub const CHARACTER_IDENTITY_MERGE_CONFIRMATION_PART_7: &'static str = "\nCHAPTER_TEXT\n\nVai trò của bạn: bộ xác nhận canonical identity cho nhân vật truyện. Bạn chỉ quyết định OBSERVED_IDENTITY mới trích xuất trong đoạn hiện tại có phải cùng một người với CANDIDATE_EXISTING_IDENTITY đã biết hay không.\n\nLuật bắt buộc:\n- Chỉ dùng CHAPTER_TEXT hiện tại, OBSERVED_IDENTITY_JSON và CANDIDATE_EXISTING_IDENTITY_JSON.\n- Không dùng kiến thức ngoài truyện, không dùng chương tương lai.\n- score trong candidate chỉ là gợi ý kỹ thuật, không phải bằng chứng.\n- Chỉ trả merge_existing khi tên/alias/ngữ cảnh trong CHAPTER_TEXT hoặc alias đã biết cho thấy rõ hai identity là cùng một người.\n- Nếu chỉ giống họ, giống một token, giống danh xưng chung, giống chức vụ, hoặc giống cách gọi xã hội thì trả create_new.\n- Nếu không đủ bằng chứng để nhập, trả create_new.\n- Chỉ trả ignore khi OBSERVED_IDENTITY rõ ràng không phải nhân vật hoặc là chuỗi rác/generic không nên ghi.\n- Nếu OBSERVED_IDENTITY là cụm sở hữu, cụm quan hệ, hoặc cụm nối từ một tên nhân vật đã biết cộng thêm vai trò/ngữ cảnh, trả ignore thay vì create_new.\n- Không tự tạo alias mới, không sửa tên, không phân tích quan hệ.\n\naction chỉ được là một trong ba giá trị:\n- \"merge_existing\": nhập OBSERVED_IDENTITY vào CANDIDATE_EXISTING_IDENTITY.\n- \"create_new\": giữ OBSERVED_IDENTITY thành nhân vật riêng.\n- \"ignore\": bỏ OBSERVED_IDENTITY vì không phải nhân vật hợp lệ.\n\nChỉ trả JSON array trực tiếp với đúng một object:\n[\n  {\n    \"action\": \"create_new\",\n    \"confidence\": 0.0,\n    \"reason\": \"lý do ngắn dựa trên bằng chứng hiện có\"\n  }\n]";

/// The user prompt of `build_character_identity_merge_confirmation_prompt`, with the values filled in.
pub open spec fn character_identity_merge_confirmation_user_prompt(chapter_num: Seq<char>, title: Seq<char>, source_language: Seq<char>, prior_context: Seq<char>, text: Seq<char>, observed_identity_json: Seq<char>, candidate_identity_json: Seq<char>) -> Seq<char> {
    CHARACTER_IDENTITY_MERGE_CONFIRMATION_PART_0@
        + chapter_num
        + CHARACTER_IDENTITY_MERGE_CONFIRMATION_PART_1@
        + title
        + CHARACTER_IDENTITY_MERGE_CONFIRMATION_PART_2@
        + source_language
        + CHARACTER_IDENTITY_MERGE_CONFIRMATION_PART_3@
        + prior_context
        + CHARACTER_IDENTITY_MERGE_CONFIRMATION_PART_4@
        + observed_identity_json
        + CHARACTER_IDENTITY_MERGE_CONFIRMATION_PART_5@
        + candidate_identity_json
        + CHARACTER_IDENTITY_MERGE_CONFIRMATION_PART_6@
        + text
        + CHARACTER_IDENTITY_MERGE_CONFIRMATION_PART_7@
}

pub fn build_character_identity_merge_confirmation_prompt(input: &DraftExtractionInput, observed_identity_json: &str, candidate_identity_json: &str) -> (r: DraftExtractionPrompt)
    ensures
        r.schema_version@ == CHARACTER_EXTRACTION_SCHEMA_VERSION@,
        r.system_prompt@ == CHARACTER_SYSTEM_PROMPT@,
        r.user_prompt@ == character_identity_merge_confirmation_user_prompt(int_decimal(input.chapter_num as int), prompt_title(*input), prompt_source_language(*input), prompt_prior_context(*input), input.text@, observed_identity_json@, candidate_identity_json@),
{
    let title = trimmed_or_default(&input.title, DEFAULT_CHAPTER_TITLE);
    let source_language = trimmed_or_default(&input.source_language, DEFAULT_SOURCE_LANGUAGE);
    let prior_context = trimmed_or_default(&input.prior_context, DEFAULT_PRIOR_CONTEXT);
    let chapter_num = i64_to_string(input.chapter_num);
    let mut user_prompt = String::new();
    push_str(&mut user_prompt, CHARACTER_IDENTITY_MERGE_CONFIRMATION_PART_0);
    push_str(&mut user_prompt, chapter_num.as_str());
    push_str(&mut user_prompt, CHARACTER_IDENTITY_MERGE_CONFIRMATION_PART_1);
    push_str(&mut user_prompt, title.as_str());
    push_str(&mut user_prompt, CHARACTER_IDENTITY_MERGE_CONFIRMATION_PART_2);
    push_str(&mut user_prompt, source_language.as_str());
    push_str(&mut user_prompt, CHARACTER_IDENTITY_MERGE_CONFIRMATION_PART_3);
    push_str(&mut user_prompt, prior_context.as_str());
    push_str(&mut user_prompt, CHARACTER_IDENTITY_MERGE_CONFIRMATION_PART_4);
    push_str(&mut user_prompt, observed_identity_json);
    push_str(&mut user_prompt, CHARACTER_IDENTITY_MERGE_CONFIRMATION_PART_5);
    push_str(&mut user_prompt, candidate_identity_json);
    push_str(&mut user_prompt, CHARACTER_IDENTITY_MERGE_CONFIRMATION_PART_6);
    push_str(&mut user_prompt, input.text.as_str());
    push_str(&mut user_prompt, CHARACTER_IDENTITY_MERGE_CONFIRMATION_PART_7);
    DraftExtractionPrompt {
        schema_version: CHARACTER_EXTRACTION_SCHEMA_VERSION,
        system_prompt: crate::text::owned(CHARACTER_SYSTEM_PROMPT),
        user_prompt,
    }
}
pub const CHARACTER_IDENTITY_CREATION_REVIEW_PART_0: &'static str = "Chapter number: ";
pub const CHARACTER_IDENTITY_CREATION_REVIEW_PART_1: &'static str = "\nChapter title: ";
pub const CHARACTER_IDENTITY_CREATION_REVIEW_PART_2: &'static str = "\nSource language: ";
pub const CHARACTER_IDENTITY_CREATION_REVIEW_PART_3: &'static str = "\n\nAllowed prior context:\n";
pub const CHARACTER_IDENTITY_CREATION_REVIEW_PART_4: &'static str = "\n\nOBSERVED_IDENTITY_JSON:\n";
pub const CHARACTER_IDENTITY_CREATION_REVIEW_PART_5: &'static str = "\n\nKNOWN_IDENTITIES_JSON:\n";
pub const CHARACTER_IDENTITY_CREATION_REVIEW_PART_6: &'static str = "\n\nCurrent chapter chunk:\n<<<CHAPTER_TEXT\n";
pub const CHARACTER_IDENTITY_CREATION_REVIEW_PART_7: &'static str = "\nCHAPTER_TEXT\n\nVai trò của bạn: bộ kiểm tra trước khi ghi một nhân vật mới vào story graph. Bạn chỉ quyết định OBSERVED_IDENTITY trong đoạn hiện tại nên nhập vào nhân vật đã biết, tạo nhân vật mới, hay bỏ qua.\n\nLuật bắt buộc:\n- Chỉ dùng CHAPTER_TEXT hiện tại, OBSERVED_IDENTITY_JSON và KNOWN_IDENTITIES_JSON.\n- Prior context chỉ giúp hiểu bối cảnh, không được dùng làm evidence.\n- Không dùng kiến thức ngoài truyện, không dùng chương tương lai.\n- Nếu OBSERVED_IDENTITY là cụm sở hữu, cụm quan hệ của một nhân vật đã biết, vai trò ngữ pháp, nhóm chung, đại từ, hoặc mô tả tạm thời thì trả reject.\n- Nếu OBSERVED_IDENTITY là alias/tên gọi khác của một character đã có, trả merge_existing và chỉ rõ target_key/target_name từ KNOWN_IDENTITIES_JSON.\n- Nếu CHAPTER_TEXT có bằng chứng rõ rằng OBSERVED_IDENTITY là nhân vật cá thể độc lập chưa có trong KNOWN_IDENTITIES_JSON, trả create_new.\n- Nếu không đủ bằng chứng, ưu tiên reject hoặc create_new an toàn; không nhập sai vào character đã biết.\n- Với câu có nhiều người, không gán surface cho người xuất hiện đầu tiên. Hãy xác định chủ thể theo ngữ pháp/ngữ nghĩa của câu.\n- Với câu tự giới thiệu hoặc lời thoại có kiểu \"có thể gọi ta là ...\", owner là người đang nói hoặc người được lời thoại chỉ rõ. Nếu không xác định được speaker/owner, không merge vào character khác.\n\naction chỉ được là một trong ba giá trị:\n- \"merge_existing\": OBSERVED_IDENTITY là cùng một người với một identity trong KNOWN_IDENTITIES_JSON.\n- \"create_new\": OBSERVED_IDENTITY là nhân vật cá thể mới, độc lập.\n- \"reject\": OBSERVED_IDENTITY không nên ghi thành character.\n\ntarget_key và target_name chỉ điền khi action là \"merge_existing\"; nếu không thì để null.\nconfidence phải từ 0.0 đến 1.0.\nevidence.quote phải là trích dẫn ngắn từ CHAPTER_TEXT chứng minh quyết định.\n\nChỉ trả JSON array trực tiếp với đúng một object:\n[\n  {\n    \"action\": \"create_new\",\n    \"target_key\": null,\n    \"target_name\": null,\n    \"confidence\": 0.0,\n    \"reason\": \"lý do ngắn dựa trên evidence hiện tại\",\n    \"evidence\": [\n      {\n        \"chapter_num\": ";
pub const CHARACTER_IDENTITY_CREATION_REVIEW_PART_8: &'static str = ",\n        \"quote\": \"trích dẫn ngắn trong đoạn\",\n        \"reason\": \"vì sao quote chứng minh quyết định\"\n      }\n    ]\n  }\n]";

/// The user prompt of `build_character_identity_creation_review_prompt`, with the values filled in.
pub open spec fn character_identity_creation_review_user_prompt(chapter_num: Seq<char>, title: Seq<char>, source_language: Seq<char>, prior_context: Seq<char>, text: Seq<char>, observed_identity_json: Seq<char>, known_identities_json: Seq<char>) -> Seq<char> {
    CHARACTER_IDENTITY_CREATION_REVIEW_PART_0@
        + chapter_num
        + CHARACTER_IDENTITY_CREATION_REVIEW_PART_1@
        + title
        + CHARACTER_IDENTITY_CREATION_REVIEW_PART_2@
        + source_language
        + CHARACTER_IDENTITY_CREATION_REVIEW_PART_3@
        + prior_context
        + CHARACTER_IDENTITY_CREATION_REVIEW_PART_4@
        + observed_identity_json
        + CHARACTER_IDENTITY_CREATION_REVIEW_PART_5@
        + known_identities_json
        + CHARACTER_IDENTITY_CREATION_REVIEW_PART_6@
        + text
        + CHARACTER_IDENTITY_CREATION_REVIEW_PART_7@
        + chapter_num
        + CHARACTER_IDENTITY_CREATION_REVIEW_PART_8@
}

pub fn build_character_identity_creation_review_prompt(input: &DraftExtractionInput, observed_identity_json: &str, known_identities_json: &str) -> (r: DraftExtractionPrompt)
    ensures
        r.schema_version@ == CHARACTER_EXTRACTION_SCHEMA_VERSION@,
        r.system_prompt@ == CHARACTER_SYSTEM_PROMPT@,
        r.user_prompt@ == character_identity_creation_review_user_prompt(int_decimal(input.chapter_num as int), prompt_title(*input), prompt_source_language(*input), prompt_prior_context(*input), input.text@, observed_identity_json@, known_identities_json@),
{
    let title = trimmed_or_default(&input.title, DEFAULT_CHAPTER_TITLE);
    let source_language = trimmed_or_default(&input.source_language, DEFAULT_SOURCE_LANGUAGE);
    let prior_context = trimmed_or_default(&input.prior_context, DEFAULT_PRIOR_CONTEXT);
    let chapter_num = i64_to_string(input.chapter_num);
    let mut user_prompt = String::new();
    push_str(&mut user_prompt, CHARACTER_IDENTITY_CREATION_REVIEW_PART_0);
    push_str(&mut user_prompt, chapter_num.as_str());
    push_str(&mut user_prompt, CHARACTER_IDENTITY_CREATION_REVIEW_PART_1);
    push_str(&mut user_prompt, title.as_str());
    push_str(&mut user_prompt, CHARACTER_IDENTITY_CREATION_REVIEW_PART_2);
    push_str(&mut user_prompt, source_language.as_str());
    push_str(&mut user_prompt, CHARACTER_IDENTITY_CREATION_REVIEW_PART_3);
    push_str(&mut user_prompt, prior_context.as_str());
    push_str(&mut user_prompt, CHARACTER_IDENTITY_CREATION_REVIEW_PART_4);
    push_str(&mut user_prompt, observed_identity_json);
    push_str(&mut user_prompt, CHARACTER_IDENTITY_CREATION_REVIEW_PART_5);
    push_str(&mut user_prompt, known_identities_json);
    push_str(&mut user_prompt, CHARACTER_IDENTITY_CREATION_REVIEW_PART_6);
    push_str(&mut user_prompt, input.text.as_str());
    push_str(&mut user_prompt, CHARACTER_IDENTITY_CREATION_REVIEW_PART_7);
    push_str(&mut user_prompt, chapter_num.as_str());
    push_str(&mut user_prompt, CHARACTER_IDENTITY_CREATION_REVIEW_PART_8);
    DraftExtractionPrompt {
        schema_version: CHARACTER_EXTRACTION_SCHEMA_VERSION,
        system_prompt: crate::text::owned(CHARACTER_SYSTEM_PROMPT),
        user_prompt,
    }
}

} // verus!
