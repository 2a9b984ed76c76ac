//! The character extraction document of a chapter: what makes it valid, and
//! how records, fields, values, mentions and evidence of the same character
//! are merged into it.
use vstd::prelude::*;
use crate::characters::{
    alias_type_of, is_persistable_alias_type, is_persistable_character_alias_type, CharacterAlias, CharacterIdentity,
};
use crate::domain::{clone_evidence_span, StoryCharacterMention, StoryEvidenceSpan};
use crate::errors::ApiError;
use crate::extraction::CHARACTER_EXTRACTION_SCHEMA_VERSION;
use crate::keys::{normalize_ascii_snake_key, normalized_text_key, snake_key, text_key};
use crate::records::{
    alias_texts_from_payload_record, is_alias_field_key, is_character_alias_field_key, opt_string,
    record_alias_texts, opt_text, or_empty, value_view, value_views, ValueView, StoryExtractionDocument, StoryExtractionFieldPayload, StoryExtractionFieldValuePayload,
    StoryExtractionRecordPayload,
};
use crate::surfaces::{clean_character_surface, clean_surface};
use crate::text::{
    chars_of, i64_to_string, int_decimal, opt_view, owned, push_str, str_eq, str_is_blank, trim, trim_str,
};

verus! {

// ------------------------------------------------------------------------
// Field keys and relationship values.
// ------------------------------------------------------------------------
/// A field key that holds relationships.
pub open spec fn is_relationship_key(key: Seq<char>) -> bool {
    key == "relationship"@ || key == "relationships"@ || key == "relation"@ || key == "relations"@
        || key == "family_relation"@ || key == "social_relation"@ || key == "character_relationship"@
        || key == "character_relationships"@
}

pub fn is_relationship_field_key(field_key: &str) -> (r: bool)
    ensures
        r == is_relationship_key(field_key@),
{
    str_eq(field_key, "relationship") || str_eq(field_key, "relationships") || str_eq(
        field_key,
        "relation",
    ) || str_eq(field_key, "relations") || str_eq(field_key, "family_relation") || str_eq(
        field_key,
        "social_relation",
    ) || str_eq(field_key, "character_relationship") || str_eq(
        field_key,
        "character_relationships",
    )
}

/// An optional text that is there and not blank.
pub open spec fn filled(o: Option<String>) -> bool {
    match o {
        Some(t) => trim(t@).len() > 0,
        None => false,
    }
}

fn is_filled(o: &Option<String>) -> (r: bool)
    ensures
        r == filled(*o),
{
    match o {
        Some(t) => !trim_str(t.as_str()).as_str().is_empty(),
        None => false,
    }
}

/// A value that says something of a relationship.
pub open spec fn has_relationship_metadata(v: StoryExtractionFieldValuePayload) -> bool {
    filled(v.related_character) || filled(v.relationship_type) || filled(v.relationship_label)
        || filled(v.relationship_direction)
}

pub fn field_value_has_relationship_metadata(value: &StoryExtractionFieldValuePayload) -> (r: bool)
    ensures
        r == has_relationship_metadata(*value),
{
    is_filled(&value.related_character) || is_filled(&value.relationship_type) || is_filled(
        &value.relationship_label,
    ) || is_filled(&value.relationship_direction)
}

/// Some evidence span quotes something.
pub open spec fn has_quote(evidence: Seq<StoryEvidenceSpan>) -> bool {
    exists|i: int| 0 <= i < evidence.len() && filled(#[trigger] evidence[i].quote)
}

/// A complete relationship value: the related character, type and label, a
/// direction of `self_to_related` or `related_to_self`, and a quote.
pub open spec fn valid_relationship_value(v: StoryExtractionFieldValuePayload) -> bool {
    &&& filled(v.related_character)
    &&& filled(v.relationship_type)
    &&& filled(v.relationship_label)
    &&& match v.relationship_direction {
        Some(d) => d@ == "self_to_related"@ || d@ == "related_to_self"@,
        None => false,
    }
    &&& has_quote(v.evidence@)
}

pub fn is_valid_relationship_field_value(value: &StoryExtractionFieldValuePayload) -> (r: bool)
    ensures
        r == valid_relationship_value(*value),
{
    if !(is_filled(&value.related_character) && is_filled(&value.relationship_type) && is_filled(
        &value.relationship_label,
    )) {
        return false;
    }
    let direction_ok = match &value.relationship_direction {
        Some(d) => str_eq(d.as_str(), "self_to_related") || str_eq(d.as_str(), "related_to_self"),
        None => false,
    };
    if !direction_ok {
        return false;
    }
    let mut i: usize = 0;
    while i < value.evidence.len()
        invariant
            filled(value.related_character),
            filled(value.relationship_type),
            filled(value.relationship_label),
            match value.relationship_direction {
                Some(d) => d@ == "self_to_related"@ || d@ == "related_to_self"@,
                None => false,
            },
            0 <= i <= value.evidence@.len(),
            forall|k: int| 0 <= k < i ==> !filled(#[trigger] value.evidence@[k].quote),
        decreases value.evidence@.len() - i,
    {
        if is_filled(&value.evidence[i].quote) {
            assert(filled(value.evidence@[i as int].quote));
            return true;
        }
        i += 1;
    }
    false
}

// ------------------------------------------------------------------------
// Validation.
// ------------------------------------------------------------------------
/// The first error of a list of checks, in order.
pub open spec fn first_error(errors: Seq<Option<Seq<char>>>) -> Option<Seq<char>>
    decreases errors.len(),
{
    if errors.len() == 0 {
        None
    } else {
        match errors[0] {
            Some(e) => Some(e),
            None => first_error(errors.drop_first()),
        }
    }
}

proof fn lemma_first_error(errors: Seq<Option<Seq<char>>>, i: int)
    requires
        0 <= i <= errors.len(),
        forall|k: int| 0 <= k < i ==> (#[trigger] errors[k]) is None,
    ensures
        i < errors.len() && errors[i] is Some ==> first_error(errors) == errors[i],
        i == errors.len() ==> first_error(errors) is None,
    decreases i,
{
    if i > 0 {
        let rest = errors.drop_first();
        assert forall|k: int| 0 <= k < i - 1 implies (#[trigger] rest[k]) is None by {
            assert(rest[k] == errors[k + 1]);
        }
        lemma_first_error(rest, i - 1);
        if i < errors.len() {
            assert(rest[i - 1] == errors[i]);
        }
    } else if errors.len() > 0 {
    }
}

pub const MSG_GROUP_KEY: &'static str =
    "story extraction records must use group_key character or relationship";

pub const MSG_GROUP_LABEL: &'static str = "character extraction group_label is required";

pub const MSG_DISPLAY_NAME: &'static str = "character extraction display_name is required";

pub const MSG_MENTION_TEXT: &'static str = "character extraction mention text is required";

pub const MSG_MENTION_SPAN: &'static str =
    "character extraction mention span is outside chapter bounds";

pub const MSG_FIELD_KEY: &'static str = "character extraction field_key is required";

pub const MSG_FIELD_LABEL: &'static str = "character extraction field_label is required";

pub const MSG_VALUE: &'static str = "character extraction value is required";

pub const MSG_RELATIONSHIP_VALUE: &'static str =
    "character relationship fields require related_character, relationship_type, relationship_label, relationship_direction, and quoted evidence";

pub const MSG_EVIDENCE_CHAPTER: &'static str =
    "character extraction evidence chapter_num does not match the running chapter: record=";

pub const MSG_EVIDENCE_SPAN: &'static str =
    "character extraction evidence span is outside chapter bounds";

pub const MSG_SCHEMA: &'static str = "character extraction schema mismatch: expected ";

pub const MSG_CHAPTER: &'static str =
    "character extraction chapter_num does not match the running chapter";

/// The error a mention of a character record gives, if any.
pub open spec fn mention_error(m: StoryCharacterMention, chapter_len: int) -> Option<Seq<char>> {
    if trim(m.text@).len() == 0 {
        Some(MSG_MENTION_TEXT@)
    } else if m.start_char < 0 || m.end_char <= m.start_char || m.end_char > chapter_len {
        Some(MSG_MENTION_SPAN@)
    } else {
        None
    }
}

/// The message of evidence from another chapter.
pub open spec fn evidence_chapter_message(
    display_name: Seq<char>,
    field_key: Seq<char>,
    value: Seq<char>,
    evidence_chapter: int,
    chapter_num: int,
) -> Seq<char> {
    MSG_EVIDENCE_CHAPTER@ + display_name + ", field="@ + field_key + ", value="@ + value
        + ", evidence_chapter_num="@ + int_decimal(evidence_chapter) + ", expected_chapter_num="@
        + int_decimal(chapter_num)
}

/// The error an evidence span of a value gives, if any.
pub open spec fn evidence_error(
    e: StoryEvidenceSpan,
    display_name: Seq<char>,
    field_key: Seq<char>,
    value: Seq<char>,
    chapter_num: int,
    chapter_len: int,
) -> Option<Seq<char>> {
    if e.chapter_num != chapter_num {
        Some(evidence_chapter_message(display_name, field_key, value, e.chapter_num as int, chapter_num))
    } else {
        match (e.start_char, e.end_char) {
            (Some(start), Some(end)) => if start < 0 || end < start || end > chapter_len {
                Some(MSG_EVIDENCE_SPAN@)
            } else {
                None
            },
            _ => None,
        }
    }
}

/// The error a value of a field gives, if any. (A confidence outside 0..=1 is
/// checked by the caller, which holds it.)
pub open spec fn value_error(
    v: StoryExtractionFieldValuePayload,
    display_name: Seq<char>,
    field_key: Seq<char>,
    chapter_num: int,
    chapter_len: int,
) -> Option<Seq<char>> {
    if trim(v.value@).len() == 0 {
        Some(MSG_VALUE@)
    } else if is_relationship_key(snake_key(field_key)) && !valid_relationship_value(v) {
        Some(MSG_RELATIONSHIP_VALUE@)
    } else {
        first_error(
            v.evidence@.map_values(
                |e: StoryEvidenceSpan|
                    evidence_error(e, display_name, field_key, v.value@, chapter_num, chapter_len),
            ),
        )
    }
}

/// The error a field of a record gives, if any.
pub open spec fn field_error(
    f: StoryExtractionFieldPayload,
    display_name: Seq<char>,
    chapter_num: int,
    chapter_len: int,
) -> Option<Seq<char>> {
    if trim(f.field_key@).len() == 0 {
        Some(MSG_FIELD_KEY@)
    } else if trim(f.field_label@).len() == 0 {
        Some(MSG_FIELD_LABEL@)
    } else {
        first_error(
            f.values@.map_values(
                |v: StoryExtractionFieldValuePayload|
                    value_error(v, display_name, f.field_key@, chapter_num, chapter_len),
            ),
        )
    }
}

/// The first error of a record of the chapter, if any.
pub open spec fn record_error(r: StoryExtractionRecordPayload, chapter_num: int, chapter_len: int) -> Option<
    Seq<char>,
> {
    let group_key = trim(r.group_key@);
    if group_key != "character"@ && group_key != "relationship"@ {
        Some(MSG_GROUP_KEY@)
    } else if trim(r.group_label@).len() == 0 {
        Some(MSG_GROUP_LABEL@)
    } else if trim(r.display_name@).len() == 0 {
        Some(MSG_DISPLAY_NAME@)
    } else {
        let mention_errors = if group_key == "character"@ {
            first_error(r.mentions@.map_values(|m: StoryCharacterMention| mention_error(m, chapter_len)))
        } else {
            None
        };
        match mention_errors {
            Some(e) => Some(e),
            None => first_error(
                r.fields@.map_values(
                    |f: StoryExtractionFieldPayload|
                        field_error(f, r.display_name@, chapter_num, chapter_len),
                ),
            ),
        }
    }
}

fn check_mentions(mentions: &Vec<StoryCharacterMention>, chapter_len: i64) -> (r: Result<(), ApiError>)
    ensures
        ({
            let expected = first_error(
                mentions@.map_values(|m: StoryCharacterMention| mention_error(m, chapter_len as int)),
            );
            match r {
                Ok(()) => expected is None,
                Err(e) => e.status == 400 && e.code@ == "invalid_request"@ && expected == Some(
                    e.message@,
                ),
            }
        }),
{
    let ghost errors = mentions@.map_values(
        |m: StoryCharacterMention| mention_error(m, chapter_len as int),
    );
    let mut i: usize = 0;
    while i < mentions.len()
        invariant
            errors == mentions@.map_values(
                |m: StoryCharacterMention| mention_error(m, chapter_len as int),
            ),
            0 <= i <= mentions@.len(),
            forall|k: int| 0 <= k < i ==> (#[trigger] errors[k]) is None,
        decreases mentions@.len() - i,
    {
        let mention = &mentions[i];
        assert(errors[i as int] == mention_error(*mention, chapter_len as int));
        if str_is_blank(mention.text.as_str()) {
            proof {
                lemma_first_error(errors, i as int);
            }
            return Err(ApiError::bad_request(owned(MSG_MENTION_TEXT)));
        }
        if mention.start_char < 0 || mention.end_char <= mention.start_char || mention.end_char
            > chapter_len {
            proof {
                lemma_first_error(errors, i as int);
            }
            return Err(ApiError::bad_request(owned(MSG_MENTION_SPAN)));
        }
        i += 1;
    }
    proof {
        lemma_first_error(errors, i as int);
    }
    Ok(())
}

fn evidence_chapter_error(
    display_name: &str,
    field_key: &str,
    value: &str,
    evidence_chapter: i64,
    chapter_num: i64,
) -> (r: String)
    ensures
        r@ == evidence_chapter_message(
            display_name@,
            field_key@,
            value@,
            evidence_chapter as int,
            chapter_num as int,
        ),
{
    let mut message = owned(MSG_EVIDENCE_CHAPTER);
    push_str(&mut message, display_name);
    push_str(&mut message, ", field=");
    push_str(&mut message, field_key);
    push_str(&mut message, ", value=");
    push_str(&mut message, value);
    push_str(&mut message, ", evidence_chapter_num=");
    push_str(&mut message, i64_to_string(evidence_chapter).as_str());
    push_str(&mut message, ", expected_chapter_num=");
    push_str(&mut message, i64_to_string(chapter_num).as_str());
    message
}

fn check_evidence(
    evidence: &Vec<StoryEvidenceSpan>,
    display_name: &str,
    field_key: &str,
    value: &str,
    chapter_num: i64,
    chapter_len: i64,
) -> (r: Result<(), ApiError>)
    ensures
        ({
            let expected = first_error(
                evidence@.map_values(
                    |e: StoryEvidenceSpan|
                        evidence_error(
                            e,
                            display_name@,
                            field_key@,
                            value@,
                            chapter_num as int,
                            chapter_len as int,
                        ),
                ),
            );
            match r {
                Ok(()) => expected is None,
                Err(e) => e.status == 400 && e.code@ == "invalid_request"@ && expected == Some(
                    e.message@,
                ),
            }
        }),
{
    let ghost errors = evidence@.map_values(
        |e: StoryEvidenceSpan|
            evidence_error(
                e,
                display_name@,
                field_key@,
                value@,
                chapter_num as int,
                chapter_len as int,
            ),
    );
    let mut i: usize = 0;
    while i < evidence.len()
        invariant
            errors == evidence@.map_values(
                |e: StoryEvidenceSpan|
                    evidence_error(
                        e,
                        display_name@,
                        field_key@,
                        value@,
                        chapter_num as int,
                        chapter_len as int,
                    ),
            ),
            0 <= i <= evidence@.len(),
            forall|k: int| 0 <= k < i ==> (#[trigger] errors[k]) is None,
        decreases evidence@.len() - i,
    {
        let e = &evidence[i];
        assert(errors[i as int] == evidence_error(
            *e,
            display_name@,
            field_key@,
            value@,
            chapter_num as int,
            chapter_len as int,
        ));
        if e.chapter_num != chapter_num {
            proof {
                lemma_first_error(errors, i as int);
            }
            let message = evidence_chapter_error(
                display_name,
                field_key,
                value,
                e.chapter_num,
                chapter_num,
            );
            return Err(ApiError::bad_request(message));
        }
        match (e.start_char, e.end_char) {
            (Some(start), Some(end)) => {
                if start < 0 || end < start || end > chapter_len {
                    proof {
                        lemma_first_error(errors, i as int);
                    }
                    return Err(ApiError::bad_request(owned(MSG_EVIDENCE_SPAN)));
                }
            },
            _ => {},
        }
        i += 1;
    }
    proof {
        lemma_first_error(errors, i as int);
    }
    Ok(())
}

fn check_value(
    value: &StoryExtractionFieldValuePayload,
    display_name: &str,
    field_key: &str,
    chapter_num: i64,
    chapter_len: i64,
) -> (r: Result<(), ApiError>)
    ensures
        ({
            let expected = value_error(
                *value,
                display_name@,
                field_key@,
                chapter_num as int,
                chapter_len as int,
            );
            match r {
                Ok(()) => expected is None,
                Err(e) => e.status == 400 && e.code@ == "invalid_request"@ && expected == Some(
                    e.message@,
                ),
            }
        }),
{
    if str_is_blank(value.value.as_str()) {
        return Err(ApiError::bad_request(owned(MSG_VALUE)));
    }
    if is_relationship_field_key(normalize_ascii_snake_key(field_key).as_str())
        && !is_valid_relationship_field_value(value) {
        return Err(ApiError::bad_request(owned(MSG_RELATIONSHIP_VALUE)));
    }
    check_evidence(
        &value.evidence,
        display_name,
        field_key,
        value.value.as_str(),
        chapter_num,
        chapter_len,
    )
}

fn check_field(
    field: &StoryExtractionFieldPayload,
    display_name: &str,
    chapter_num: i64,
    chapter_len: i64,
) -> (r: Result<(), ApiError>)
    ensures
        ({
            let expected = field_error(*field, display_name@, chapter_num as int, chapter_len as int);
            match r {
                Ok(()) => expected is None,
                Err(e) => e.status == 400 && e.code@ == "invalid_request"@ && expected == Some(
                    e.message@,
                ),
            }
        }),
{
    if str_is_blank(field.field_key.as_str()) {
        return Err(ApiError::bad_request(owned(MSG_FIELD_KEY)));
    }
    if str_is_blank(field.field_label.as_str()) {
        return Err(ApiError::bad_request(owned(MSG_FIELD_LABEL)));
    }
    let ghost errors = field.values@.map_values(
        |v: StoryExtractionFieldValuePayload|
            value_error(v, display_name@, field.field_key@, chapter_num as int, chapter_len as int),
    );
    proof {
        let f = *field;
        assert(errors =~= f.values@.map_values(
            |v: StoryExtractionFieldValuePayload|
                value_error(v, display_name@, f.field_key@, chapter_num as int, chapter_len as int),
        ));
    }
    let mut i: usize = 0;
    while i < field.values.len()
        invariant
            errors == field.values@.map_values(
                |v: StoryExtractionFieldValuePayload|
                    value_error(
                        v,
                        display_name@,
                        field.field_key@,
                        chapter_num as int,
                        chapter_len as int,
                    ),
            ),
            trim(field.field_key@).len() > 0,
            trim(field.field_label@).len() > 0,
            0 <= i <= field.values@.len(),
            forall|k: int| 0 <= k < i ==> (#[trigger] errors[k]) is None,
        decreases field.values@.len() - i,
    {
        let checked = check_value(
            &field.values[i],
            display_name,
            field.field_key.as_str(),
            chapter_num,
            chapter_len,
        );
        assert(errors[i as int] == value_error(
            field.values@[i as int],
            display_name@,
            field.field_key@,
            chapter_num as int,
            chapter_len as int,
        ));
        if checked.is_err() {
            proof {
                lemma_first_error(errors, i as int);
            }
            return checked;
        }
        i += 1;
    }
    proof {
        lemma_first_error(errors, i as int);
    }
    Ok(())
}

/// The first error of the record, if any.
pub fn validate_character_record(
    record: &StoryExtractionRecordPayload,
    chapter_num: i64,
    chapter_text: &str,
) -> (r: Result<(), ApiError>)
    requires
        chapter_text@.len() < i64::MAX,
    ensures
        ({
            let expected = record_error(*record, chapter_num as int, chapter_text@.len() as int);
            match r {
                Ok(()) => expected is None,
                Err(e) => e.status == 400 && e.code@ == "invalid_request"@ && expected == Some(
                    e.message@,
                ),
            }
        }),
{
    let chapter_len = chars_of(chapter_text).len() as i64;
    let group_key = trim_str(record.group_key.as_str());
    let is_character = str_eq(group_key.as_str(), "character");
    if !is_character && !str_eq(group_key.as_str(), "relationship") {
        return Err(ApiError::bad_request(owned(MSG_GROUP_KEY)));
    }
    if str_is_blank(record.group_label.as_str()) {
        return Err(ApiError::bad_request(owned(MSG_GROUP_LABEL)));
    }
    if str_is_blank(record.display_name.as_str()) {
        return Err(ApiError::bad_request(owned(MSG_DISPLAY_NAME)));
    }
    if is_character {
        let checked = check_mentions(&record.mentions, chapter_len);
        if checked.is_err() {
            return checked;
        }
    }
    let ghost errors = record.fields@.map_values(
        |f: StoryExtractionFieldPayload|
            field_error(f, record.display_name@, chapter_num as int, chapter_len as int),
    );
    proof {
        let rec = *record;
        assert(errors =~= rec.fields@.map_values(
            |f: StoryExtractionFieldPayload|
                field_error(f, rec.display_name@, chapter_num as int, chapter_len as int),
        ));
        assert(chapter_len == chapter_text@.len());
    }
    let mut i: usize = 0;
    while i < record.fields.len()
        invariant
            errors == record.fields@.map_values(
                |f: StoryExtractionFieldPayload|
                    field_error(f, record.display_name@, chapter_num as int, chapter_len as int),
            ),
            chapter_len == chapter_text@.len(),
            ({
                let group_key = trim(record.group_key@);
                &&& group_key == "character"@ || group_key == "relationship"@
                &&& trim(record.group_label@).len() > 0
                &&& trim(record.display_name@).len() > 0
                &&& group_key == "character"@ ==> first_error(
                    record.mentions@.map_values(
                        |m: StoryCharacterMention| mention_error(m, chapter_len as int),
                    ),
                ) is None
            }),
            0 <= i <= record.fields@.len(),
            forall|k: int| 0 <= k < i ==> (#[trigger] errors[k]) is None,
        decreases record.fields@.len() - i,
    {
        let checked = check_field(
            &record.fields[i],
            record.display_name.as_str(),
            chapter_num,
            chapter_len,
        );
        assert(errors[i as int] == field_error(
            record.fields@[i as int],
            record.display_name@,
            chapter_num as int,
            chapter_len as int,
        ));
        if checked.is_err() {
            proof {
                lemma_first_error(errors, i as int);
            }
            return checked;
        }
        i += 1;
    }
    proof {
        lemma_first_error(errors, i as int);
    }
    Ok(())
}

/// The first error of a character extraction document for the running chapter, if any.
pub open spec fn document_error(doc: StoryExtractionDocument, chapter_num: int, chapter_len: int) -> Option<
    Seq<char>,
> {
    if trim(doc.schema_version@) != CHARACTER_EXTRACTION_SCHEMA_VERSION@ {
        Some(MSG_SCHEMA@ + CHARACTER_EXTRACTION_SCHEMA_VERSION@ + ", got "@ + doc.schema_version@)
    } else if doc.chapter_num != chapter_num {
        Some(MSG_CHAPTER@)
    } else {
        first_error(
            doc.records@.map_values(
                |r: StoryExtractionRecordPayload| record_error(r, chapter_num, chapter_len),
            ),
        )
    }
}

pub fn validate_character_extraction_document(
    document: &StoryExtractionDocument,
    chapter_num: i64,
    chapter_text: &str,
) -> (r: Result<(), ApiError>)
    requires
        chapter_text@.len() < i64::MAX,
    ensures
        ({
            let expected = document_error(*document, chapter_num as int, chapter_text@.len() as int);
            match r {
                Ok(()) => expected is None,
                Err(e) => e.status == 400 && e.code@ == "invalid_request"@ && expected == Some(
                    e.message@,
                ),
            }
        }),
{
    let schema = trim_str(document.schema_version.as_str());
    if !str_eq(schema.as_str(), CHARACTER_EXTRACTION_SCHEMA_VERSION) {
        let mut message = owned(MSG_SCHEMA);
        push_str(&mut message, CHARACTER_EXTRACTION_SCHEMA_VERSION);
        push_str(&mut message, ", got ");
        push_str(&mut message, document.schema_version.as_str());
        return Err(ApiError::bad_request(message));
    }
    if document.chapter_num != chapter_num {
        return Err(ApiError::bad_request(owned(MSG_CHAPTER)));
    }
    let ghost errors = document.records@.map_values(
        |r: StoryExtractionRecordPayload| record_error(r, chapter_num as int, chapter_text@.len() as int),
    );
    let mut i: usize = 0;
    while i < document.records.len()
        invariant
            chapter_text@.len() < i64::MAX,
            trim(document.schema_version@) == CHARACTER_EXTRACTION_SCHEMA_VERSION@,
            document.chapter_num == chapter_num,
            errors == document.records@.map_values(
                |r: StoryExtractionRecordPayload|
                    record_error(r, chapter_num as int, chapter_text@.len() as int),
            ),
            0 <= i <= document.records@.len(),
            forall|k: int| 0 <= k < i ==> (#[trigger] errors[k]) is None,
        decreases document.records@.len() - i,
    {
        let checked = validate_character_record(&document.records[i], chapter_num, chapter_text);
        assert(errors[i as int] == record_error(
            document.records@[i as int],
            chapter_num as int,
            chapter_text@.len() as int,
        ));
        if checked.is_err() {
            proof {
                lemma_first_error(errors, i as int);
            }
            return checked;
        }
        i += 1;
    }
    proof {
        lemma_first_error(errors, i as int);
    }
    Ok(())
}

/// Every field key of the document in ASCII snake_case.
pub fn normalize_character_field_keys(document: &mut StoryExtractionDocument)
    ensures
        final(document).schema_version == old(document).schema_version,
        final(document).chapter_num == old(document).chapter_num,
        final(document).records@.len() == old(document).records@.len(),
        forall|i: int|
            0 <= i < final(document).records@.len() ==> {
                let r = #[trigger] final(document).records@[i];
                let o = old(document).records@[i];
                &&& r.group_key == o.group_key
                &&& r.group_label == o.group_label
                &&& r.entity_key == o.entity_key
                &&& r.display_name == o.display_name
                &&& r.mentions == o.mentions
                &&& r.fields@.len() == o.fields@.len()
                &&& forall|j: int|
                    0 <= j < r.fields@.len() ==> (#[trigger] r.fields@[j]).field_key@ == snake_key(
                        o.fields@[j].field_key@,
                    ) && r.fields@[j].field_label == o.fields@[j].field_label
                        && r.fields@[j].values == o.fields@[j].values
            },
{
    let ghost start = document.records@;
    let mut i: usize = 0;
    while i < document.records.len()
        invariant
            document.schema_version == old(document).schema_version,
            document.chapter_num == old(document).chapter_num,
            start == old(document).records@,
            document.records@.len() == start.len(),
            0 <= i <= start.len(),
            forall|k: int| i <= k < start.len() ==> document.records@[k] == start[k],
            forall|k: int|
                0 <= k < i ==> {
                    let r = #[trigger] document.records@[k];
                    let o = start[k];
                    &&& r.group_key == o.group_key
                    &&& r.group_label == o.group_label
                    &&& r.entity_key == o.entity_key
                    &&& r.display_name == o.display_name
                    &&& r.mentions == o.mentions
                    &&& r.fields@.len() == o.fields@.len()
                    &&& forall|j: int|
                        0 <= j < r.fields@.len() ==> (#[trigger] r.fields@[j]).field_key@
                            == snake_key(o.fields@[j].field_key@) && r.fields@[j].field_label
                            == o.fields@[j].field_label && r.fields@[j].values
                            == o.fields@[j].values
                },
        decreases start.len() - i,
    {
        let mut record = document.records.remove(i);
        let ghost orig = record;
        let mut fields: Vec<StoryExtractionFieldPayload> = Vec::new();
        std::mem::swap(&mut fields, &mut record.fields);
        let mut normalized: Vec<StoryExtractionFieldPayload> = Vec::new();
        let ghost src = fields@;
        while fields.len() > 0
            invariant
                src == orig.fields@,
                normalized@.len() + fields@.len() == src.len(),
                forall|k: int| 0 <= k < fields@.len() ==> fields@[k] == src[normalized@.len() + k],
                forall|j: int|
                    0 <= j < normalized@.len() ==> (#[trigger] normalized@[j]).field_key@
                        == snake_key(src[j].field_key@) && normalized@[j].field_label
                        == src[j].field_label && normalized@[j].values == src[j].values,
            decreases fields@.len(),
        {
            let mut field = fields.remove(0);
            field.field_key = normalize_ascii_snake_key(field.field_key.as_str());
            normalized.push(field);
        }
        record.fields = normalized;
        document.records.insert(i, record);
        i += 1;
    }
}

// ------------------------------------------------------------------------
// Evidence of a value, once per key.
// ------------------------------------------------------------------------
pub open spec fn opt_or(o: Option<i64>, default: int) -> int {
    match o {
        Some(v) => v as int,
        None => default,
    }
}

/// The key an evidence span is told apart by: `start:end:quote:reason`, with
/// `-1` for a missing offset and the texts trimmed.
pub open spec fn story_evidence_key(e: StoryEvidenceSpan) -> Seq<char> {
    int_decimal(opt_or(e.start_char, -1)) + ":"@ + int_decimal(opt_or(e.end_char, -1)) + ":"@ + trim(
        opt_text(e.quote),
    ) + ":"@ + trim(opt_text(e.reason))
}

pub fn evidence_span_key(evidence: &StoryEvidenceSpan) -> (r: String)
    ensures
        r@ == story_evidence_key(*evidence),
{
    let start = match evidence.start_char {
        Some(v) => v,
        None => -1,
    };
    let end = match evidence.end_char {
        Some(v) => v,
        None => -1,
    };
    let mut key = i64_to_string(start);
    push_str(&mut key, ":");
    push_str(&mut key, i64_to_string(end).as_str());
    push_str(&mut key, ":");
    push_str(&mut key, trim_str(opt_string(&evidence.quote).as_str()).as_str());
    push_str(&mut key, ":");
    push_str(&mut key, trim_str(opt_string(&evidence.reason).as_str()).as_str());
    key
}

pub open spec fn evidence_keys(spans: Seq<StoryEvidenceSpan>) -> Seq<Seq<char>> {
    spans.map_values(|e: StoryEvidenceSpan| story_evidence_key(e))
}

/// The spans of `source` whose keys are new, added in order.
pub open spec fn evidence_merge_scan(
    target: Seq<StoryEvidenceSpan>,
    keys: Seq<Seq<char>>,
    source: Seq<StoryEvidenceSpan>,
) -> (Seq<StoryEvidenceSpan>, Seq<Seq<char>>)
    decreases source.len(),
{
    if source.len() == 0 {
        (target, keys)
    } else {
        let (t, k) = evidence_merge_scan(target, keys, source.drop_last());
        let key = story_evidence_key(source.last());
        if k.contains(key) {
            (t, k)
        } else {
            (t.push(source.last()), k.push(key))
        }
    }
}

/// `target` with the spans of `source` whose keys it does not have yet.
pub open spec fn merged_story_evidence(target: Seq<StoryEvidenceSpan>, source: Seq<StoryEvidenceSpan>) -> Seq<
    StoryEvidenceSpan,
> {
    evidence_merge_scan(target, evidence_keys(target), source).0
}

fn string_list_contains(keys: &Vec<String>, key: &str) -> (r: bool)
    ensures
        r == keys@.map_values(|k: String| k@).contains(key@),
{
    let ghost kv = keys@.map_values(|k: String| k@);
    let mut i: usize = 0;
    while i < keys.len()
        invariant
            kv == keys@.map_values(|k: String| k@),
            0 <= i <= keys@.len(),
            forall|j: int| 0 <= j < i ==> kv[j] != key@,
        decreases keys@.len() - i,
    {
        if str_eq(keys[i].as_str(), key) {
            assert(kv[i as int] == key@);
            return true;
        }
        i += 1;
    }
    false
}

pub fn merge_story_evidence(target: &mut Vec<StoryEvidenceSpan>, source: Vec<StoryEvidenceSpan>)
    ensures
        final(target)@ == merged_story_evidence(old(target)@, source@),
{
    let ghost start = target@;
    let mut seen: Vec<String> = Vec::new();
    let mut i: usize = 0;
    while i < target.len()
        invariant
            target@ == start,
            0 <= i <= start.len(),
            seen@.map_values(|k: String| k@) == evidence_keys(start.take(i as int)),
        decreases start.len() - i,
    {
        let key = evidence_span_key(&target[i]);
        let ghost before = seen@;
        seen.push(key);
        proof {
            assert(start.take(i + 1) =~= start.take(i as int).push(start[i as int]));
            assert(evidence_keys(start.take(i + 1)) =~= evidence_keys(start.take(i as int)).push(
                story_evidence_key(start[i as int]),
            ));
            assert(seen@.map_values(|k: String| k@) =~= before.map_values(|k: String| k@).push(key@));
        }
        i += 1;
    }
    proof {
        assert(start.take(i as int) =~= start);
    }
    let ghost src = source@;
    let total = source.len();
    let mut rest = source;
    let mut taken: usize = 0;
    proof {
        assert(src.take(0) =~= Seq::<StoryEvidenceSpan>::empty());
        assert(src.skip(0) =~= src);
    }
    while rest.len() > 0
        invariant
            taken + rest@.len() == src.len(),
            src.len() == total,
            rest@ == src.skip(taken as int),
            (target@, seen@.map_values(|k: String| k@)) == evidence_merge_scan(
                start,
                evidence_keys(start),
                src.take(taken as int),
            ),
        decreases rest@.len(),
    {
        let e = rest.remove(0);
        proof {
            assert(e == src[taken as int]);
            assert(rest@ =~= src.skip(taken + 1));
            assert(src.take(taken + 1).drop_last() =~= src.take(taken as int));
        }
        let key = evidence_span_key(&e);
        if !string_list_contains(&seen, key.as_str()) {
            let ghost kb = seen@;
            seen.push(key);
            target.push(e);
            proof {
                assert(seen@.map_values(|k: String| k@) =~= kb.map_values(|k: String| k@).push(key@));
            }
        }
        taken += 1;
    }
    proof {
        assert(src.take(taken as int) =~= src);
    }
}

// ------------------------------------------------------------------------
// Values of a field, once per key.
// ------------------------------------------------------------------------
pub open spec fn fill(target: Option<Seq<char>>, source: Option<Seq<char>>) -> Option<Seq<char>> {
    match target {
        Some(t) => Some(t),
        None => source,
    }
}

/// A value that takes the relationship details it lacks from `s`, and its new
/// evidence. (The confidence it lacks is the caller's to take.)
pub open spec fn merge_value_metadata(t: ValueView, s: ValueView) -> ValueView {
    (t.0, fill(t.1, s.1), fill(t.2, s.2), fill(t.3, s.3), fill(t.4, s.4), merged_story_evidence(t.5, s.5))
}

fn fill_text(target: &mut Option<String>, source: &Option<String>)
    ensures
        opt_view(*final(target)) == fill(opt_view(*old(target)), opt_view(*source)),
{
    if target.is_none() {
        *target = match source {
            Some(v) => Some(v.clone()),
            None => None,
        };
    }
}

pub fn merge_character_field_value_metadata(
    target: &mut StoryExtractionFieldValuePayload,
    source: &StoryExtractionFieldValuePayload,
)
    ensures
        final(target).value == old(target).value,
        final(target).evidence == old(target).evidence,
        value_view(*final(target)).1 == fill(value_view(*old(target)).1, value_view(*source).1),
        value_view(*final(target)).2 == fill(value_view(*old(target)).2, value_view(*source).2),
        value_view(*final(target)).3 == fill(value_view(*old(target)).3, value_view(*source).3),
        value_view(*final(target)).4 == fill(value_view(*old(target)).4, value_view(*source).4),
{
    fill_text(&mut target.related_character, &source.related_character);
    fill_text(&mut target.relationship_type, &source.relationship_type);
    fill_text(&mut target.relationship_label, &source.relationship_label);
    fill_text(&mut target.relationship_direction, &source.relationship_direction);
}

fn merge_value_into(target: &mut StoryExtractionFieldValuePayload, source: StoryExtractionFieldValuePayload)
    ensures
        value_view(*final(target)) == merge_value_metadata(value_view(*old(target)), value_view(source)),
{
    merge_character_field_value_metadata(target, &source);
    merge_story_evidence(&mut target.evidence, source.evidence);
}

pub open spec fn opt_key(o: Option<Seq<char>>) -> Seq<char> {
    match o {
        Some(t) => text_key(t, false),
        None => seq![],
    }
}

/// The key a field value is told apart by: the keys of its value, related
/// character, type, label and direction, joined by `:`.
pub open spec fn field_value_key(v: ValueView) -> Seq<char> {
    text_key(v.0, false) + ":"@ + opt_key(v.1) + ":"@ + opt_key(v.2) + ":"@ + opt_key(v.3) + ":"@
        + opt_key(v.4)
}

fn opt_text_key(o: &Option<String>) -> (r: String)
    ensures
        r@ == opt_key(opt_view(*o)),
{
    match o {
        Some(t) => normalized_text_key(t.as_str()),
        None => String::new(),
    }
}

pub fn character_field_value_key(value: &StoryExtractionFieldValuePayload) -> (r: String)
    ensures
        r@ == field_value_key(value_view(*value)),
{
    let mut key = normalized_text_key(value.value.as_str());
    push_str(&mut key, ":");
    push_str(&mut key, opt_text_key(&value.related_character).as_str());
    push_str(&mut key, ":");
    push_str(&mut key, opt_text_key(&value.relationship_type).as_str());
    push_str(&mut key, ":");
    push_str(&mut key, opt_text_key(&value.relationship_label).as_str());
    push_str(&mut key, ":");
    push_str(&mut key, opt_text_key(&value.relationship_direction).as_str());
    key
}

/// The last index whose key is `key`.
pub open spec fn last_key_index(keys: Seq<Seq<char>>, key: Seq<char>) -> Option<int>
    decreases keys.len(),
{
    if keys.len() == 0 {
        None
    } else if keys.last() == key {
        Some(keys.len() - 1)
    } else {
        last_key_index(keys.drop_last(), key)
    }
}

proof fn lemma_last_key_index(keys: Seq<Seq<char>>, key: Seq<char>)
    ensures
        last_key_index(keys, key) matches Some(i) ==> 0 <= i < keys.len(),
    decreases keys.len(),
{
    if keys.len() > 0 && keys.last() != key {
        lemma_last_key_index(keys.drop_last(), key);
    }
}

/// The values after `source` is merged value by value: a value goes into the
/// value its key was last given to, else it is added with its key.
pub open spec fn field_values_scan(vals: Seq<ValueView>, keys: Seq<Seq<char>>, source: Seq<ValueView>) -> (
    Seq<ValueView>,
    Seq<Seq<char>>,
)
    decreases source.len(),
{
    if source.len() == 0 {
        (vals, keys)
    } else {
        let (v, k) = field_values_scan(vals, keys, source.drop_last());
        let s = source.last();
        match last_key_index(k, field_value_key(s)) {
            Some(i) => (v.update(i, merge_value_metadata(v[i], s)), k),
            None => (v.push(s), k.push(field_value_key(s))),
        }
    }
}

pub open spec fn merged_field_values(target: Seq<ValueView>, source: Seq<ValueView>) -> Seq<ValueView> {
    field_values_scan(target, target.map_values(|v: ValueView| field_value_key(v)), source).0
}

proof fn lemma_field_values_scan_len(vals: Seq<ValueView>, keys: Seq<Seq<char>>, source: Seq<ValueView>)
    requires
        vals.len() == keys.len(),
    ensures
        field_values_scan(vals, keys, source).0.len() == field_values_scan(vals, keys, source).1.len(),
    decreases source.len(),
{
    if source.len() > 0 {
        lemma_field_values_scan_len(vals, keys, source.drop_last());
        let (v, k) = field_values_scan(vals, keys, source.drop_last());
        lemma_last_key_index(k, field_value_key(source.last()));
    }
}

fn find_last_key(keys: &Vec<String>, key: &str) -> (r: Option<usize>)
    ensures
        match r {
            Some(i) => last_key_index(keys@.map_values(|k: String| k@), key@) == Some(i as int) && i
                < keys@.len(),
            None => last_key_index(keys@.map_values(|k: String| k@), key@) is None,
        },
{
    let ghost kv = keys@.map_values(|k: String| k@);
    let mut i: usize = keys.len();
    proof {
        assert(kv.take(i as int) =~= kv);
    }
    while i > 0
        invariant
            kv == keys@.map_values(|k: String| k@),
            0 <= i <= keys@.len(),
            last_key_index(kv, key@) == last_key_index(kv.take(i as int), key@),
        decreases i,
    {
        proof {
            assert(kv.take(i as int).drop_last() =~= kv.take(i - 1));
            assert(kv.take(i as int).last() == keys@[i - 1]@);
        }
        if str_eq(keys[i - 1].as_str(), key) {
            return Some(i - 1);
        }
        i -= 1;
    }
    None
}

pub fn merge_character_field_values(
    target: &mut Vec<StoryExtractionFieldValuePayload>,
    source: Vec<StoryExtractionFieldValuePayload>,
)
    ensures
        value_views(final(target)@) == merged_field_values(value_views(old(target)@), value_views(source@)),
{
    let ghost start = value_views(target@);
    let mut keys: Vec<String> = Vec::new();
    let mut i: usize = 0;
    while i < target.len()
        invariant
            value_views(target@) == start,
            0 <= i <= start.len(),
            keys@.map_values(|k: String| k@) == start.take(i as int).map_values(
                |v: ValueView| field_value_key(v),
            ),
        decreases start.len() - i,
    {
        let key = character_field_value_key(&target[i]);
        let ghost kb = keys@;
        keys.push(key);
        proof {
            assert(value_views(target@)[i as int] == value_view(target@[i as int]));
            assert(start.take(i + 1) =~= start.take(i as int).push(start[i as int]));
            assert(start.take(i + 1).map_values(|v: ValueView| field_value_key(v))
                =~= start.take(i as int).map_values(|v: ValueView| field_value_key(v)).push(
                field_value_key(start[i as int]),
            ));
            assert(keys@.map_values(|k: String| k@) =~= kb.map_values(|k: String| k@).push(key@));
        }
        i += 1;
    }
    proof {
        assert(start.take(i as int) =~= start);
    }
    let ghost start_keys = keys@.map_values(|k: String| k@);
    let ghost src = value_views(source@);
    let ghost items = source@;
    let total = source.len();
    let mut rest = source;
    let mut taken: usize = 0;
    proof {
        assert(src.take(0) =~= Seq::<ValueView>::empty());
        assert(items.skip(0) =~= items);
    }
    while rest.len() > 0
        invariant
            src == value_views(items),
            start_keys == start.map_values(|v: ValueView| field_value_key(v)),
            taken + rest@.len() == items.len(),
            items.len() == total,
            rest@ == items.skip(taken as int),
            (value_views(target@), keys@.map_values(|k: String| k@)) == field_values_scan(
                start,
                start_keys,
                src.take(taken as int),
            ),
            target@.len() == keys@.len(),
        decreases rest@.len(),
    {
        let value = rest.remove(0);
        proof {
            assert(value == items[taken as int]);
            assert(rest@ =~= items.skip(taken + 1));
            assert(src.take(taken + 1).drop_last() =~= src.take(taken as int));
            assert(src.take(taken + 1).last() == value_view(value));
        }
        let key = character_field_value_key(&value);
        match find_last_key(&keys, key.as_str()) {
            Some(index) => {
                let ghost before = value_views(target@);
                let mut existing = target.remove(index);
                merge_value_into(&mut existing, value);
                let ghost merged = value_view(existing);
                target.insert(index, existing);
                proof {
                    assert(value_views(target@) =~= before.update(index as int, merged));
                }
            },
            None => {
                let ghost before = value_views(target@);
                let ghost kb = keys@;
                keys.push(key);
                target.push(value);
                proof {
                    assert(value_views(target@) =~= before.push(src[taken as int]));
                    assert(keys@.map_values(|k: String| k@) =~= kb.map_values(|k: String| k@).push(
                        key@,
                    ));
                }
            },
        }
        taken += 1;
    }
    proof {
        assert(src.take(taken as int) =~= src);
    }
}

// ------------------------------------------------------------------------
// Fields of a record.
// ------------------------------------------------------------------------
/// A field as the specifications see it: key, label, values.
pub type FieldView = (Seq<char>, Seq<char>, Seq<ValueView>);

pub open spec fn field_view(f: StoryExtractionFieldPayload) -> FieldView {
    (f.field_key@, f.field_label@, value_views(f.values@))
}

pub open spec fn field_views(fs: Seq<StoryExtractionFieldPayload>) -> Seq<FieldView> {
    fs.map_values(|f: StoryExtractionFieldPayload| field_view(f))
}

pub open spec fn filled_view(o: Option<Seq<char>>) -> bool {
    match o {
        Some(t) => trim(t).len() > 0,
        None => false,
    }
}

pub open spec fn view_has_relationship_metadata(v: ValueView) -> bool {
    filled_view(v.1) || filled_view(v.2) || filled_view(v.3) || filled_view(v.4)
}

/// The first value from `j` on whose value has the key `key`.
pub open spec fn first_value_with_key(values: Seq<ValueView>, key: Seq<char>, j: int) -> Option<int>
    decreases values.len() - j,
{
    if j < 0 || j >= values.len() {
        None
    } else if text_key(values[j].0, false) == key {
        Some(j)
    } else {
        first_value_with_key(values, key, j + 1)
    }
}

/// The first value, in fields from `i` on other than the source field and
/// relationship fields, that has the value key `key`.
pub open spec fn duplicate_position(fields: Seq<FieldView>, source_key: Seq<char>, key: Seq<char>, i: int) -> Option<
    (int, int),
>
    decreases fields.len() - i,
{
    if i < 0 || i >= fields.len() {
        None
    } else {
        let field_key = snake_key(fields[i].0);
        if field_key == source_key || is_relationship_key(field_key) {
            duplicate_position(fields, source_key, key, i + 1)
        } else {
            match first_value_with_key(fields[i].2, key, 0) {
                Some(j) => Some((i, j)),
                None => duplicate_position(fields, source_key, key, i + 1),
            }
        }
    }
}

/// A value of a new field: kept as it is when it speaks of a relationship;
/// dropped when its value has no key; merged into the same value of another
/// field when there is one; else kept.
pub open spec fn duplicate_outcome(fields: Seq<FieldView>, source_key: Seq<char>, s: ValueView) -> (
    Seq<FieldView>,
    Option<ValueView>,
) {
    if view_has_relationship_metadata(s) || is_relationship_key(source_key) {
        (fields, Some(s))
    } else if text_key(s.0, false).len() == 0 {
        (fields, None)
    } else {
        match duplicate_position(fields, source_key, text_key(s.0, false), 0) {
            Some((i, j)) => (
                fields.update(
                    i,
                    (fields[i].0, fields[i].1, fields[i].2.update(j, merge_value_metadata(fields[i].2[j], s))),
                ),
                None,
            ),
            None => (fields, Some(s)),
        }
    }
}

proof fn lemma_first_value_with_key(values: Seq<ValueView>, key: Seq<char>, j: int)
    requires
        0 <= j,
    ensures
        first_value_with_key(values, key, j) matches Some(k) ==> j <= k < values.len(),
    decreases values.len() - j,
{
    if j < values.len() && text_key(values[j].0, false) != key {
        lemma_first_value_with_key(values, key, j + 1);
    }
}

proof fn lemma_duplicate_position(fields: Seq<FieldView>, source_key: Seq<char>, key: Seq<char>, i: int)
    requires
        0 <= i,
    ensures
        duplicate_position(fields, source_key, key, i) matches Some((a, b)) ==> i <= a < fields.len()
            && 0 <= b < fields[a].2.len(),
    decreases fields.len() - i,
{
    if i < fields.len() {
        lemma_duplicate_position(fields, source_key, key, i + 1);
        lemma_first_value_with_key(fields[i].2, key, 0);
    }
}

pub fn merge_duplicate_character_field_value(
    target: &mut Vec<StoryExtractionFieldPayload>,
    source_key: &str,
    source_value: StoryExtractionFieldValuePayload,
) -> (r: Option<StoryExtractionFieldValuePayload>)
    ensures
        ({
            let (fields, kept) = duplicate_outcome(
                field_views(old(target)@),
                source_key@,
                value_view(source_value),
            );
            &&& field_views(final(target)@) == fields
            &&& match r {
                Some(v) => kept == Some(value_view(v)),
                None => kept is None,
            }
        }),
{
    if field_value_has_relationship_metadata(&source_value) || is_relationship_field_key(source_key) {
        return Some(source_value);
    }
    let value_key = normalized_text_key(source_value.value.as_str());
    if value_key.as_str().is_empty() {
        return None;
    }
    let ghost fv = field_views(target@);
    let ghost s = value_view(source_value);
    let mut i: usize = 0;
    while i < target.len()
        invariant
            fv == field_views(target@),
            target@ == old(target)@,
            value_key@ == text_key(source_value.value@, false),
            value_key@.len() > 0,
            s == value_view(source_value),
            !view_has_relationship_metadata(s),
            !is_relationship_key(source_key@),
            0 <= i <= target@.len(),
            duplicate_position(fv, source_key@, value_key@, 0) == duplicate_position(
                fv,
                source_key@,
                value_key@,
                i as int,
            ),
        decreases target@.len() - i,
    {
        let field_key = normalize_ascii_snake_key(target[i].field_key.as_str());
        proof {
            assert(fv[i as int] == field_view(target@[i as int]));
        }
        if !str_eq(field_key.as_str(), source_key) && !is_relationship_field_key(field_key.as_str()) {
            let ghost vals = fv[i as int].2;
            let mut j: usize = 0;
            while j < target[i].values.len()
                invariant
                    fv == field_views(target@),
                    target@ == old(target)@,
                    value_key@ == text_key(source_value.value@, false),
                    value_key@.len() > 0,
                    s == value_view(source_value),
                    !view_has_relationship_metadata(s),
                    !is_relationship_key(source_key@),
                    0 <= i < target@.len(),
                    snake_key(fv[i as int].0) != source_key@,
                    !is_relationship_key(snake_key(fv[i as int].0)),
                    duplicate_position(fv, source_key@, value_key@, 0) == duplicate_position(
                        fv,
                        source_key@,
                        value_key@,
                        i as int,
                    ),
                    vals == fv[i as int].2,
                    vals == value_views(target@[i as int].values@),
                    0 <= j <= vals.len(),
                    first_value_with_key(vals, value_key@, 0) == first_value_with_key(
                        vals,
                        value_key@,
                        j as int,
                    ),
                decreases vals.len() - j,
            {
                let k = normalized_text_key(target[i].values[j].value.as_str());
                proof {
                    assert(vals[j as int] == value_view(target@[i as int].values@[j as int]));
                }
                if str_eq(k.as_str(), value_key.as_str()) {
                    proof {
                        assert(duplicate_position(fv, source_key@, value_key@, i as int) == Some(
                            (i as int, j as int),
                        ));
                    }
                    let mut field = target.remove(i);
                    let mut existing = field.values.remove(j);
                    merge_value_into(&mut existing, source_value);
                    let ghost merged = value_view(existing);
                    field.values.insert(j, existing);
                    let ghost fview = field_view(field);
                    target.insert(i, field);
                    proof {
                        assert(value_views(field.values@) =~= vals.update(j as int, merged));
                        assert(field_views(target@) =~= fv.update(i as int, fview));
                    }
                    return None;
                }
                j += 1;
            }
        }
        i += 1;
    }
    Some(source_value)
}

/// The first field from `i` on whose snake key is `key`.
pub open spec fn first_field_with_key(fields: Seq<FieldView>, key: Seq<char>, i: int) -> Option<int>
    decreases fields.len() - i,
{
    if i < 0 || i >= fields.len() {
        None
    } else if snake_key(fields[i].0) == key {
        Some(i)
    } else {
        first_field_with_key(fields, key, i + 1)
    }
}

/// The values of a new field offered in turn as duplicates of other fields'
/// values: the fields they change, and the values the new field keeps.
pub open spec fn duplicates_scan(fields: Seq<FieldView>, source_key: Seq<char>, values: Seq<ValueView>) -> (
    Seq<FieldView>,
    Seq<ValueView>,
)
    decreases values.len(),
{
    if values.len() == 0 {
        (fields, seq![])
    } else {
        let (fs, kept) = duplicates_scan(fields, source_key, values.drop_last());
        let (fs2, out) = duplicate_outcome(fs, source_key, values.last());
        (
            fs2,
            match out {
                Some(v) => kept.push(v),
                None => kept,
            },
        )
    }
}

/// The fields after `source` is merged in: into the field of the same key,
/// else as a new field under its snake key holding the values that are not
/// duplicates of other fields' values (none when it holds none).
pub open spec fn merged_field(fields: Seq<FieldView>, source: FieldView) -> Seq<FieldView> {
    let key = snake_key(source.0);
    match first_field_with_key(fields, key, 0) {
        Some(i) => fields.update(i, (fields[i].0, fields[i].1, merged_field_values(fields[i].2, source.2))),
        None => {
            let (fs, kept) = duplicates_scan(fields, key, source.2);
            if kept.len() == 0 {
                fs
            } else {
                fs.push((key, source.1, kept))
            }
        },
    }
}

pub fn merge_character_field(target: &mut Vec<StoryExtractionFieldPayload>, source: StoryExtractionFieldPayload)
    ensures
        field_views(final(target)@) == merged_field(field_views(old(target)@), field_view(source)),
{
    let source_key = normalize_ascii_snake_key(source.field_key.as_str());
    let ghost fv = field_views(target@);
    let ghost sv = field_view(source);
    let mut i: usize = 0;
    while i < target.len()
        invariant
            fv == field_views(target@),
            target@ == old(target)@,
            source_key@ == snake_key(source.field_key@),
            0 <= i <= target@.len(),
            first_field_with_key(fv, source_key@, 0) == first_field_with_key(fv, source_key@, i as int),
        decreases target@.len() - i,
    {
        let key = normalize_ascii_snake_key(target[i].field_key.as_str());
        proof {
            assert(fv[i as int] == field_view(target@[i as int]));
        }
        if str_eq(key.as_str(), source_key.as_str()) {
            let mut field = target.remove(i);
            merge_character_field_values(&mut field.values, source.values);
            let ghost fview = field_view(field);
            target.insert(i, field);
            proof {
                assert(field_views(target@) =~= fv.update(i as int, fview));
            }
            return ;
        }
        i += 1;
    }
    let StoryExtractionFieldPayload { field_label, values: source_values, .. } = source;
    let ghost items = source_values@;
    let ghost src = value_views(items);
    let total = source_values.len();
    let mut rest = source_values;
    let mut kept: Vec<StoryExtractionFieldValuePayload> = Vec::new();
    let mut taken: usize = 0;
    proof {
        assert(src.take(0) =~= Seq::<ValueView>::empty());
        assert(items.skip(0) =~= items);
        assert(value_views(kept@) =~= Seq::<ValueView>::empty());
    }
    while rest.len() > 0
        invariant
            src == value_views(items),
            src == sv.2,
            source_key@ == snake_key(sv.0),
            items.len() == total,
            taken + rest@.len() == items.len(),
            rest@ == items.skip(taken as int),
            (field_views(target@), value_views(kept@)) == duplicates_scan(
                fv,
                source_key@,
                src.take(taken as int),
            ),
        decreases rest@.len(),
    {
        let value = rest.remove(0);
        proof {
            assert(value == items[taken as int]);
            assert(rest@ =~= items.skip(taken + 1));
            assert(src.take(taken + 1).drop_last() =~= src.take(taken as int));
            assert(src.take(taken + 1).last() == value_view(value));
        }
        let ghost kb = value_views(kept@);
        match merge_duplicate_character_field_value(target, source_key.as_str(), value) {
            Some(v) => {
                kept.push(v);
                proof {
                    assert(value_views(kept@) =~= kb.push(value_view(v)));
                }
            },
            None => {},
        }
        taken += 1;
    }
    proof {
        assert(src.take(taken as int) =~= src);
    }
    if kept.len() == 0 {
        return ;
    }
    let ghost before = field_views(target@);
    let field = StoryExtractionFieldPayload { field_key: source_key, field_label, values: kept };
    target.push(field);
    proof {
        assert(field_views(target@) =~= before.push(field_view(field)));
    }
}

// ------------------------------------------------------------------------
// Mentions of a record.
// ------------------------------------------------------------------------
/// The key a mention is told apart by: `start:end:text`, the text trimmed.
pub open spec fn mention_key(m: StoryCharacterMention) -> Seq<char> {
    int_decimal(m.start_char as int) + ":"@ + int_decimal(m.end_char as int) + ":"@ + trim(m.text@)
}

fn mention_key_of(m: &StoryCharacterMention) -> (r: String)
    ensures
        r@ == mention_key(*m),
{
    let mut key = i64_to_string(m.start_char);
    push_str(&mut key, ":");
    push_str(&mut key, i64_to_string(m.end_char).as_str());
    push_str(&mut key, ":");
    push_str(&mut key, trim_str(m.text.as_str()).as_str());
    key
}

/// Mentions are ordered by start, then the longer first.
pub open spec fn mention_before(a: StoryCharacterMention, b: StoryCharacterMention) -> bool {
    a.start_char < b.start_char || (a.start_char == b.start_char && a.end_char > b.end_char)
}

pub open spec fn mention_insert_pos(sorted: Seq<StoryCharacterMention>, x: StoryCharacterMention, p: int) -> int
    decreases p,
{
    if p > 0 && p <= sorted.len() && mention_before(x, sorted[p - 1]) {
        mention_insert_pos(sorted, x, p - 1)
    } else {
        p
    }
}

proof fn lemma_mention_insert_pos(sorted: Seq<StoryCharacterMention>, x: StoryCharacterMention, p: int)
    requires
        0 <= p <= sorted.len(),
    ensures
        0 <= mention_insert_pos(sorted, x, p) <= p,
    decreases p,
{
    if p > 0 && mention_before(x, sorted[p - 1]) {
        lemma_mention_insert_pos(sorted, x, p - 1);
    }
}

/// A stable sort of mentions (each goes after every earlier mention it does
/// not come before), as `slice::sort_by` orders them.
pub open spec fn sort_mentions(s: Seq<StoryCharacterMention>) -> Seq<StoryCharacterMention>
    decreases s.len(),
{
    if s.len() == 0 {
        seq![]
    } else {
        let prev = sort_mentions(s.drop_last());
        prev.insert(mention_insert_pos(prev, s.last(), prev.len() as int), s.last())
    }
}

proof fn lemma_sort_mentions_len(s: Seq<StoryCharacterMention>)
    ensures
        sort_mentions(s).len() == s.len(),
    decreases s.len(),
{
    if s.len() > 0 {
        let prev = sort_mentions(s.drop_last());
        lemma_sort_mentions_len(s.drop_last());
        lemma_mention_insert_pos(prev, s.last(), prev.len() as int);
    }
}

fn sort_character_mentions(mentions: Vec<StoryCharacterMention>) -> (r: Vec<StoryCharacterMention>)
    ensures
        r@ == sort_mentions(mentions@),
{
    let ghost items = mentions@;
    let total = mentions.len();
    let mut out: Vec<StoryCharacterMention> = Vec::new();
    let mut rest = mentions;
    let mut taken: usize = 0;
    proof {
        assert(items.take(0) =~= Seq::<StoryCharacterMention>::empty());
        assert(items.skip(0) =~= items);
    }
    while rest.len() > 0
        invariant
            items.len() == total,
            taken + rest@.len() == items.len(),
            rest@ == items.skip(taken as int),
            out@ == sort_mentions(items.take(taken as int)),
        decreases rest@.len(),
    {
        let x = rest.remove(0);
        proof {
            assert(x == items[taken as int]);
            assert(rest@ =~= items.skip(taken + 1));
            assert(items.take(taken + 1).drop_last() =~= items.take(taken as int));
            lemma_sort_mentions_len(items.take(taken as int));
        }
        let mut p = out.len();
        while p > 0 && (x.start_char < out[p - 1].start_char || (x.start_char == out[p - 1].start_char
            && x.end_char > out[p - 1].end_char))
            invariant
                0 <= p <= out@.len(),
                mention_insert_pos(out@, x, out@.len() as int) == mention_insert_pos(out@, x, p as int),
            decreases p,
        {
            p -= 1;
        }
        out.insert(p, x);
        taken += 1;
    }
    proof {
        assert(items.take(taken as int) =~= items);
    }
    out
}

/// The mentions of `source` whose keys are new, added in order.
pub open spec fn mention_merge_scan(
    target: Seq<StoryCharacterMention>,
    keys: Seq<Seq<char>>,
    source: Seq<StoryCharacterMention>,
) -> (Seq<StoryCharacterMention>, Seq<Seq<char>>)
    decreases source.len(),
{
    if source.len() == 0 {
        (target, keys)
    } else {
        let (t, k) = mention_merge_scan(target, keys, source.drop_last());
        let key = mention_key(source.last());
        if k.contains(key) {
            (t, k)
        } else {
            (t.push(source.last()), k.push(key))
        }
    }
}

/// `target` with the new mentions of `source`, sorted.
pub open spec fn merged_mentions(target: Seq<StoryCharacterMention>, source: Seq<StoryCharacterMention>) -> Seq<
    StoryCharacterMention,
> {
    sort_mentions(
        mention_merge_scan(target, target.map_values(|m: StoryCharacterMention| mention_key(m)), source).0,
    )
}

pub fn merge_character_mentions(target: &mut Vec<StoryCharacterMention>, source: Vec<StoryCharacterMention>)
    ensures
        final(target)@ == merged_mentions(old(target)@, source@),
{
    let ghost start = target@;
    let mut seen: Vec<String> = Vec::new();
    let mut i: usize = 0;
    while i < target.len()
        invariant
            target@ == start,
            0 <= i <= start.len(),
            seen@.map_values(|k: String| k@) == start.take(i as int).map_values(
                |m: StoryCharacterMention| mention_key(m),
            ),
        decreases start.len() - i,
    {
        let key = mention_key_of(&target[i]);
        let ghost before = seen@;
        seen.push(key);
        proof {
            assert(start.take(i + 1) =~= start.take(i as int).push(start[i as int]));
            assert(start.take(i + 1).map_values(|m: StoryCharacterMention| mention_key(m))
                =~= start.take(i as int).map_values(|m: StoryCharacterMention| mention_key(m)).push(
                mention_key(start[i as int]),
            ));
            assert(seen@.map_values(|k: String| k@) =~= before.map_values(|k: String| k@).push(key@));
        }
        i += 1;
    }
    proof {
        assert(start.take(i as int) =~= start);
    }
    let ghost src = source@;
    let total = source.len();
    let mut rest = source;
    let mut taken: usize = 0;
    proof {
        assert(src.take(0) =~= Seq::<StoryCharacterMention>::empty());
        assert(src.skip(0) =~= src);
    }
    while rest.len() > 0
        invariant
            src.len() == total,
            taken + rest@.len() == src.len(),
            rest@ == src.skip(taken as int),
            (target@, seen@.map_values(|k: String| k@)) == mention_merge_scan(
                start,
                start.map_values(|m: StoryCharacterMention| mention_key(m)),
                src.take(taken as int),
            ),
        decreases rest@.len(),
    {
        let m = rest.remove(0);
        proof {
            assert(m == src[taken as int]);
            assert(rest@ =~= src.skip(taken + 1));
            assert(src.take(taken + 1).drop_last() =~= src.take(taken as int));
        }
        let key = mention_key_of(&m);
        if !string_list_contains(&seen, key.as_str()) {
            let ghost kb = seen@;
            seen.push(key);
            target.push(m);
            proof {
                assert(seen@.map_values(|k: String| k@) =~= kb.map_values(|k: String| k@).push(key@));
            }
        }
        taken += 1;
    }
    proof {
        assert(src.take(taken as int) =~= src);
    }
    let mut all: Vec<StoryCharacterMention> = Vec::new();
    std::mem::swap(&mut all, target);
    *target = sort_character_mentions(all);
}

// ------------------------------------------------------------------------
// Records of a document.
// ------------------------------------------------------------------------
/// A record as the specifications see it: group key and label, entity key,
/// display name, mentions, fields.
pub type RecordView = (
    Seq<char>,
    Seq<char>,
    Option<Seq<char>>,
    Seq<char>,
    Seq<StoryCharacterMention>,
    Seq<FieldView>,
);

pub open spec fn record_view(r: StoryExtractionRecordPayload) -> RecordView {
    (r.group_key@, r.group_label@, opt_view(r.entity_key), r.display_name@, r.mentions@, field_views(r.fields@))
}

pub open spec fn record_views(rs: Seq<StoryExtractionRecordPayload>) -> Seq<RecordView> {
    rs.map_values(|r: StoryExtractionRecordPayload| record_view(r))
}

/// The fields of `sources` merged in turn.
pub open spec fn merged_fields(fields: Seq<FieldView>, sources: Seq<FieldView>) -> Seq<FieldView>
    decreases sources.len(),
{
    if sources.len() == 0 {
        fields
    } else {
        merged_field(merged_fields(fields, sources.drop_last()), sources.last())
    }
}

/// A record after another record of the same character is merged into it:
/// the entity key when it had none, the new mentions, the fields.
pub open spec fn merged_record(t: RecordView, s: RecordView) -> RecordView {
    (
        t.0,
        t.1,
        if trim(or_empty(t.2)).len() == 0 {
            s.2
        } else {
            t.2
        },
        t.3,
        merged_mentions(t.4, s.4),
        merged_fields(t.5, s.5),
    )
}

pub fn merge_character_record(target: &mut StoryExtractionRecordPayload, source: StoryExtractionRecordPayload)
    ensures
        record_view(*final(target)) == merged_record(record_view(*old(target)), record_view(source)),
{
    let StoryExtractionRecordPayload { entity_key, mentions, fields, .. } = source;
    let blank = match &target.entity_key {
        Some(k) => str_is_blank(k.as_str()),
        None => true,
    };
    proof {
        assert(trim(Seq::<char>::empty()).len() == 0) by {
            assert(trim(Seq::<char>::empty()) =~= Seq::<char>::empty());
        }
    }
    if blank {
        target.entity_key = entity_key;
    }
    merge_character_mentions(&mut target.mentions, mentions);
    let ghost start = field_views(target.fields@);
    let ghost head = record_view(*target);
    let ghost items = fields@;
    let ghost src = field_views(items);
    let total = fields.len();
    let mut rest = fields;
    let mut taken: usize = 0;
    proof {
        assert(src.take(0) =~= Seq::<FieldView>::empty());
        assert(items.skip(0) =~= items);
    }
    while rest.len() > 0
        invariant
            src == field_views(items),
            items.len() == total,
            taken + rest@.len() == items.len(),
            rest@ == items.skip(taken as int),
            field_views(target.fields@) == merged_fields(start, src.take(taken as int)),
            record_view(*target).0 == head.0,
            record_view(*target).1 == head.1,
            record_view(*target).2 == head.2,
            record_view(*target).3 == head.3,
            record_view(*target).4 == head.4,
        decreases rest@.len(),
    {
        let f = rest.remove(0);
        proof {
            assert(f == items[taken as int]);
            assert(rest@ =~= items.skip(taken + 1));
            assert(src.take(taken + 1).drop_last() =~= src.take(taken as int));
            assert(src.take(taken + 1).last() == field_view(f));
        }
        merge_character_field(&mut target.fields, f);
        taken += 1;
    }
    proof {
        assert(src.take(taken as int) =~= src);
    }
}

// ------------------------------------------------------------------------
// The record of a character identity.
// ------------------------------------------------------------------------
pub const GROUP_KEY_CHARACTER: &'static str = "character";

pub const GROUP_LABEL_CHARACTER: &'static str = "Nh\u{e2}n V\u{1ead}t";

pub const FIELD_KEY_OTHER_ALIAS: &'static str = "other_alias";

pub const FIELD_LABEL_OTHER_ALIAS: &'static str = "T\u{ea}n g\u{1ecd}i kh\u{e1}c";

/// The evidence spans of chapter `chapter`, in order.
pub open spec fn chapter_evidence(evidence: Seq<StoryEvidenceSpan>, chapter: int) -> Seq<StoryEvidenceSpan>
    decreases evidence.len(),
{
    if evidence.len() == 0 {
        seq![]
    } else if evidence.last().chapter_num == chapter {
        chapter_evidence(evidence.drop_last(), chapter).push(evidence.last())
    } else {
        chapter_evidence(evidence.drop_last(), chapter)
    }
}

/// The values an identity's aliases give its record: each persistable alias
/// with a non-empty cleaned text, with its evidence of the chapter.
pub open spec fn identity_alias_values(aliases: Seq<CharacterAlias>, chapter: int) -> Seq<ValueView>
    decreases aliases.len(),
{
    if aliases.len() == 0 {
        seq![]
    } else {
        let prev = identity_alias_values(aliases.drop_last(), chapter);
        let a = aliases.last();
        if !is_persistable_alias_type(a.alias_type@) || clean_surface(a.text@).len() == 0 {
            prev
        } else {
            prev.push((clean_surface(a.text@), None, None, None, None, chapter_evidence(a.evidence@, chapter)))
        }
    }
}

/// The record of a character identity in chapter `chapter`.
pub open spec fn identity_record(identity: CharacterIdentity, chapter: int) -> RecordView {
    let values = identity_alias_values(identity.aliases@, chapter);
    (
        GROUP_KEY_CHARACTER@,
        GROUP_LABEL_CHARACTER@,
        Some(snake_key(identity.name@)),
        identity.name@,
        seq![],
        if values.len() == 0 {
            seq![]
        } else {
            seq![(FIELD_KEY_OTHER_ALIAS@, FIELD_LABEL_OTHER_ALIAS@, values)]
        },
    )
}

fn chapter_evidence_of(evidence: &Vec<StoryEvidenceSpan>, chapter: i64) -> (r: Vec<StoryEvidenceSpan>)
    ensures
        r@ == chapter_evidence(evidence@, chapter as int),
{
    let mut out: Vec<StoryEvidenceSpan> = Vec::new();
    let mut i: usize = 0;
    proof {
        assert(evidence@.take(0) =~= Seq::<StoryEvidenceSpan>::empty());
    }
    while i < evidence.len()
        invariant
            0 <= i <= evidence@.len(),
            out@ == chapter_evidence(evidence@.take(i as int), chapter as int),
        decreases evidence@.len() - i,
    {
        proof {
            assert(evidence@.take(i + 1).drop_last() =~= evidence@.take(i as int));
            assert(evidence@.take(i + 1).last() == evidence@[i as int]);
        }
        if evidence[i].chapter_num == chapter {
            out.push(clone_evidence_span(&evidence[i]));
        }
        i += 1;
    }
    proof {
        assert(evidence@.take(i as int) =~= evidence@);
    }
    out
}

pub fn identity_to_record(identity: &CharacterIdentity, chapter_num: i64) -> (r: StoryExtractionRecordPayload)
    ensures
        record_view(r) == identity_record(*identity, chapter_num as int),
{
    let mut values: Vec<StoryExtractionFieldValuePayload> = Vec::new();
    let mut i: usize = 0;
    proof {
        assert(identity.aliases@.take(0) =~= Seq::<CharacterAlias>::empty());
        assert(value_views(values@) =~= Seq::<ValueView>::empty());
    }
    while i < identity.aliases.len()
        invariant
            0 <= i <= identity.aliases@.len(),
            value_views(values@) == identity_alias_values(identity.aliases@.take(i as int), chapter_num as int),
        decreases identity.aliases@.len() - i,
    {
        proof {
            assert(identity.aliases@.take(i + 1).drop_last() =~= identity.aliases@.take(i as int));
            assert(identity.aliases@.take(i + 1).last() == identity.aliases@[i as int]);
        }
        let alias = &identity.aliases[i];
        if is_persistable_character_alias_type(alias.alias_type.as_str()) {
            let value = clean_character_surface(alias.text.as_str());
            if !value.as_str().is_empty() {
                let ghost before = value_views(values@);
                let v = StoryExtractionFieldValuePayload {
                    value,
                    related_character: None,
                    relationship_type: None,
                    relationship_label: None,
                    relationship_direction: None,
                    evidence: chapter_evidence_of(&alias.evidence, chapter_num),
                };
                values.push(v);
                proof {
                    assert(value_views(values@) =~= before.push(value_view(v)));
                }
            }
        }
        i += 1;
    }
    proof {
        assert(identity.aliases@.take(i as int) =~= identity.aliases@);
    }
    let mut fields: Vec<StoryExtractionFieldPayload> = Vec::new();
    if values.len() > 0 {
        let field = StoryExtractionFieldPayload {
            field_key: owned(FIELD_KEY_OTHER_ALIAS),
            field_label: owned(FIELD_LABEL_OTHER_ALIAS),
            values,
        };
        fields.push(field);
        proof {
            assert(field_views(fields@) =~= seq![field_view(field)]);
        }
    } else {
        proof {
            assert(field_views(fields@) =~= Seq::<FieldView>::empty());
        }
    }
    let r = StoryExtractionRecordPayload {
        group_key: owned(GROUP_KEY_CHARACTER),
        group_label: owned(GROUP_LABEL_CHARACTER),
        entity_key: Some(normalize_ascii_snake_key(identity.name.as_str())),
        display_name: identity.name.clone(),
        mentions: Vec::new(),
        fields,
    };
    proof {
        assert(r.mentions@ =~= Seq::<StoryCharacterMention>::empty());
    }
    r
}

// ------------------------------------------------------------------------
// The record of the same character.
// ------------------------------------------------------------------------
/// The keys an identity is recognised by: its name's, then its aliases'.
pub open spec fn identity_surface_key_list(identity: CharacterIdentity) -> Seq<Seq<char>> {
    seq![text_key(identity.name@, false)] + identity.aliases@.map_values(
        |a: CharacterAlias| text_key(a.text@, false),
    )
}

pub fn character_identity_surface_keys(identity: &CharacterIdentity) -> (r: Vec<String>)
    ensures
        r@.map_values(|k: String| k@) == identity_surface_key_list(*identity),
{
    let mut keys: Vec<String> = Vec::new();
    keys.push(normalized_text_key(identity.name.as_str()));
    let mut i: usize = 0;
    while i < identity.aliases.len()
        invariant
            0 <= i <= identity.aliases@.len(),
            keys@.map_values(|k: String| k@) == seq![text_key(identity.name@, false)]
                + identity.aliases@.take(i as int).map_values(
                |a: CharacterAlias| text_key(a.text@, false),
            ),
        decreases identity.aliases@.len() - i,
    {
        let ghost before = keys@;
        let key = normalized_text_key(identity.aliases[i].text.as_str());
        keys.push(key);
        proof {
            assert(identity.aliases@.take(i + 1) =~= identity.aliases@.take(i as int).push(
                identity.aliases@[i as int],
            ));
            assert(keys@.map_values(|k: String| k@) =~= before.map_values(|k: String| k@).push(key@));
            assert(keys@.map_values(|k: String| k@) =~= seq![text_key(identity.name@, false)]
                + identity.aliases@.take(i + 1).map_values(|a: CharacterAlias| text_key(a.text@, false)));
        }
        i += 1;
    }
    proof {
        assert(identity.aliases@.take(i as int) =~= identity.aliases@);
    }
    keys
}

/// A record names one of `names`: by its display name, or by a value of an
/// alias field.
pub open spec fn record_matches_names(r: RecordView, names: Seq<Seq<char>>) -> bool {
    ||| names.contains(text_key(r.3, false))
    ||| exists|i: int, j: int|
        #![trigger r.5[i].2[j]]
        0 <= i < r.5.len() && is_alias_field_key(snake_key(r.5[i].0)) && 0 <= j < r.5[i].2.len()
            && names.contains(text_key(r.5[i].2[j].0, false))
}

fn record_matches_key_list(record: &StoryExtractionRecordPayload, names: &Vec<String>) -> (r: bool)
    ensures
        r == record_matches_names(record_view(*record), names@.map_values(|k: String| k@)),
{
    let ghost rv = record_view(*record);
    let ghost nv = names@.map_values(|k: String| k@);
    if string_list_contains(names, normalized_text_key(record.display_name.as_str()).as_str()) {
        return true;
    }
    let mut i: usize = 0;
    while i < record.fields.len()
        invariant
            rv == record_view(*record),
            nv == names@.map_values(|k: String| k@),
            !nv.contains(text_key(rv.3, false)),
            0 <= i <= record.fields@.len(),
            forall|a: int, b: int|
                #![trigger rv.5[a].2[b]]
                0 <= a < i && is_alias_field_key(snake_key(rv.5[a].0)) && 0 <= b < rv.5[a].2.len()
                    ==> !nv.contains(text_key(rv.5[a].2[b].0, false)),
        decreases record.fields@.len() - i,
    {
        let field = &record.fields[i];
        proof {
            assert(rv.5[i as int] == field_view(*field));
        }
        let key = normalize_ascii_snake_key(field.field_key.as_str());
        if is_character_alias_field_key(key.as_str()) {
            let mut j: usize = 0;
            while j < field.values.len()
                invariant
                    rv == record_view(*record),
                    nv == names@.map_values(|k: String| k@),
                    0 <= i < record.fields@.len(),
                    field == record.fields@[i as int],
                    rv.5[i as int] == field_view(*field),
                    is_alias_field_key(snake_key(rv.5[i as int].0)),
                    0 <= j <= field.values@.len(),
                    forall|b: int| 0 <= b < j ==> !nv.contains(text_key(#[trigger] rv.5[i as int].2[b].0, false)),
                decreases field.values@.len() - j,
            {
                proof {
                    assert(rv.5[i as int].2[j as int] == value_view(field.values@[j as int]));
                }
                if string_list_contains(names, normalized_text_key(field.values[j].value.as_str()).as_str()) {
                    assert(nv.contains(text_key(rv.5[i as int].2[j as int].0, false)));
                    return true;
                }
                j += 1;
            }
        }
        i += 1;
    }
    false
}

pub fn payload_record_matches_identity(record: &StoryExtractionRecordPayload, identity: &CharacterIdentity) -> (r:
    bool)
    ensures
        r == record_matches_names(record_view(*record), identity_surface_key_list(*identity)),
{
    let names = character_identity_surface_keys(identity);
    record_matches_key_list(record, &names)
}

/// The first record from `i` on with the identity's name key or naming it.
pub open spec fn matching_record(records: Seq<RecordView>, identity: CharacterIdentity, i: int) -> Option<int>
    decreases records.len() - i,
{
    if i < 0 || i >= records.len() {
        None
    } else if text_key(records[i].3, false) == text_key(identity.name@, false) || record_matches_names(
        records[i],
        identity_surface_key_list(identity),
    ) {
        Some(i)
    } else {
        matching_record(records, identity, i + 1)
    }
}

proof fn lemma_matching_record(records: Seq<RecordView>, identity: CharacterIdentity, i: int)
    requires
        0 <= i,
    ensures
        matching_record(records, identity, i) matches Some(k) ==> i <= k < records.len(),
    decreases records.len() - i,
{
    if i < records.len() {
        lemma_matching_record(records, identity, i + 1);
    }
}

/// The records with one for the identity, and its index: the first that
/// matches it, else its own record added at the end.
pub open spec fn ensured_record(records: Seq<RecordView>, identity: CharacterIdentity, chapter: int) -> (
    Seq<RecordView>,
    int,
) {
    match matching_record(records, identity, 0) {
        Some(k) => (records, k),
        None => (records.push(identity_record(identity, chapter)), records.len() as int),
    }
}

/// Finds the character record of an identity, adding it when missing;
/// gives the index of the record.
pub fn ensure_character_record(document: &mut StoryExtractionDocument, identity: &CharacterIdentity) -> (r:
    usize)
    ensures
        final(document).schema_version == old(document).schema_version,
        final(document).chapter_num == old(document).chapter_num,
        (record_views(final(document).records@), r as int) == ensured_record(
            record_views(old(document).records@),
            *identity,
            old(document).chapter_num as int,
        ),
        r < final(document).records@.len(),
{
    let ghost rv = record_views(document.records@);
    let key = normalized_text_key(identity.name.as_str());
    let names = character_identity_surface_keys(identity);
    let mut i: usize = 0;
    while i < document.records.len()
        invariant
            rv == record_views(document.records@),
            key@ == text_key(identity.name@, false),
            names@.map_values(|k: String| k@) == identity_surface_key_list(*identity),
            0 <= i <= document.records@.len(),
            matching_record(rv, *identity, 0) == matching_record(rv, *identity, i as int),
        decreases document.records@.len() - i,
    {
        let record = &document.records[i];
        proof {
            assert(rv[i as int] == record_view(*record));
        }
        if str_eq(normalized_text_key(record.display_name.as_str()).as_str(), key.as_str())
            || record_matches_key_list(record, &names) {
            return i;
        }
        i += 1;
    }
    let record = identity_to_record(identity, document.chapter_num);
    document.records.push(record);
    proof {
        assert(record_views(document.records@) =~= rv.push(record_view(record)));
    }
    document.records.len() - 1
}

pub fn merge_character_identity_mentions(
    document: &mut StoryExtractionDocument,
    identity: &CharacterIdentity,
    mentions: Vec<StoryCharacterMention>,
)
    ensures
        ({
            let (rs, k) = ensured_record(
                record_views(old(document).records@),
                *identity,
                old(document).chapter_num as int,
            );
            record_views(final(document).records@) == rs.update(
                k,
                (rs[k].0, rs[k].1, rs[k].2, rs[k].3, merged_mentions(rs[k].4, mentions@), rs[k].5),
            )
        }),
{
    let index = ensure_character_record(document, identity);
    let ghost rs = record_views(document.records@);
    let mut record = document.records.remove(index);
    merge_character_mentions(&mut record.mentions, mentions);
    let ghost updated = record_view(record);
    document.records.insert(index, record);
    proof {
        assert(record_views(document.records@) =~= rs.update(index as int, updated));
    }
}

pub fn merge_character_identity_fields(
    document: &mut StoryExtractionDocument,
    identity: &CharacterIdentity,
    fields: Vec<StoryExtractionFieldPayload>,
)
    ensures
        ({
            let (rs, k) = ensured_record(
                record_views(old(document).records@),
                *identity,
                old(document).chapter_num as int,
            );
            record_views(final(document).records@) == rs.update(
                k,
                (rs[k].0, rs[k].1, rs[k].2, rs[k].3, rs[k].4, merged_fields(rs[k].5, field_views(fields@))),
            )
        }),
{
    let index = ensure_character_record(document, identity);
    let ghost rs = record_views(document.records@);
    let mut record = document.records.remove(index);
    let ghost head = record_view(record);
    let ghost items = fields@;
    let ghost src = field_views(items);
    let total = fields.len();
    let mut rest = fields;
    let mut taken: usize = 0;
    proof {
        assert(src.take(0) =~= Seq::<FieldView>::empty());
        assert(items.skip(0) =~= items);
    }
    while rest.len() > 0
        invariant
            src == field_views(items),
            items.len() == total,
            taken + rest@.len() == items.len(),
            rest@ == items.skip(taken as int),
            record_view(record).0 == head.0,
            record_view(record).1 == head.1,
            record_view(record).2 == head.2,
            record_view(record).3 == head.3,
            record_view(record).4 == head.4,
            field_views(record.fields@) == merged_fields(head.5, src.take(taken as int)),
        decreases rest@.len(),
    {
        let f = rest.remove(0);
        proof {
            assert(f == items[taken as int]);
            assert(rest@ =~= items.skip(taken + 1));
            assert(src.take(taken + 1).drop_last() =~= src.take(taken as int));
            assert(src.take(taken + 1).last() == field_view(f));
        }
        merge_character_field(&mut record.fields, f);
        taken += 1;
    }
    proof {
        assert(src.take(taken as int) =~= src);
    }
    let ghost updated = record_view(record);
    document.records.insert(index, record);
    proof {
        assert(record_views(document.records@) =~= rs.update(index as int, updated));
    }
}

// ------------------------------------------------------------------------
// The records of the chapter's identities, one per character.
// ------------------------------------------------------------------------
/// A field whose values are kept aliases.
pub open spec fn is_alias_field_view(f: FieldView) -> bool {
    let key = alias_type_of(f.0);
    is_alias_field_key(key) && is_persistable_alias_type(alias_type_of(key))
}

/// The alias texts a record holds, field by field.
pub open spec fn field_alias_texts(fields: Seq<FieldView>) -> Seq<Seq<char>>
    decreases fields.len(),
{
    if fields.len() == 0 {
        seq![]
    } else if is_alias_field_view(fields.last()) {
        field_alias_texts(fields.drop_last()) + fields.last().2.map_values(|v: ValueView| v.0)
    } else {
        field_alias_texts(fields.drop_last())
    }
}

proof fn lemma_field_alias_texts(fields: Seq<StoryExtractionFieldPayload>)
    ensures
        record_alias_texts(fields) == field_alias_texts(field_views(fields)),
    decreases fields.len(),
{
    if fields.len() > 0 {
        lemma_field_alias_texts(fields.drop_last());
        assert(field_views(fields).drop_last() =~= field_views(fields.drop_last()));
        assert(fields.last().values@.map_values(|v: StoryExtractionFieldValuePayload| v.value@)
            =~= value_views(fields.last().values@).map_values(|v: ValueView| v.0));
    }
}

/// The keys a record is recognised by: its display name's and its aliases'.
pub open spec fn record_names(r: RecordView) -> Seq<Seq<char>> {
    seq![text_key(r.3, false)] + field_alias_texts(r.5).map_values(|t: Seq<char>| text_key(t, false))
}

fn record_name_keys(record: &StoryExtractionRecordPayload) -> (r: Vec<String>)
    ensures
        r@.map_values(|k: String| k@) == record_names(record_view(*record)),
{
    let texts = alias_texts_from_payload_record(record);
    proof {
        lemma_field_alias_texts(record.fields@);
    }
    let ghost tv = texts@.map_values(|t: String| t@);
    let mut keys: Vec<String> = Vec::new();
    keys.push(normalized_text_key(record.display_name.as_str()));
    let mut i: usize = 0;
    while i < texts.len()
        invariant
            tv == texts@.map_values(|t: String| t@),
            0 <= i <= texts@.len(),
            keys@.map_values(|k: String| k@) == seq![text_key(record.display_name@, false)] + tv.take(
                i as int,
            ).map_values(|t: Seq<char>| text_key(t, false)),
        decreases texts@.len() - i,
    {
        let ghost before = keys@;
        let key = normalized_text_key(texts[i].as_str());
        keys.push(key);
        proof {
            assert(tv.take(i + 1) =~= tv.take(i as int).push(tv[i as int]));
            assert(keys@.map_values(|k: String| k@) =~= before.map_values(|k: String| k@).push(key@));
            assert(keys@.map_values(|k: String| k@) =~= seq![text_key(record.display_name@, false)]
                + tv.take(i + 1).map_values(|t: Seq<char>| text_key(t, false)));
        }
        i += 1;
    }
    proof {
        assert(tv.take(i as int) =~= tv);
    }
    keys
}

/// The first character record from `j` on that names one of `names`.
pub open spec fn duplicate_record(records: Seq<RecordView>, names: Seq<Seq<char>>, j: int) -> Option<int>
    decreases records.len() - j,
{
    if j < 0 || j >= records.len() {
        None
    } else if records[j].0 == GROUP_KEY_CHARACTER@ && record_matches_names(records[j], names) {
        Some(j)
    } else {
        duplicate_record(records, names, j + 1)
    }
}

pub proof fn lemma_duplicate_record(records: Seq<RecordView>, names: Seq<Seq<char>>, j: int)
    requires
        0 <= j,
    ensures
        duplicate_record(records, names, j) matches Some(k) ==> j <= k < records.len(),
    decreases records.len() - j,
{
    if j < records.len() {
        lemma_duplicate_record(records, names, j + 1);
    }
}

/// Character records from `index` on, each with the later character records
/// that name it merged into it.
pub open spec fn dedupe_from(records: Seq<RecordView>, index: int) -> Seq<RecordView>
    decreases 2 * records.len() - index,
{
    if index < 0 || index >= records.len() {
        records
    } else if records[index].0 != GROUP_KEY_CHARACTER@ {
        dedupe_from(records, index + 1)
    } else {
        match duplicate_record(records, record_names(records[index]), index + 1) {
            Some(j) => {
                proof {
                    lemma_duplicate_record(records, record_names(records[index]), index + 1);
                }
                dedupe_from(records.remove(j).update(index, merged_record(records[index], records[j])), index)
            },
            None => dedupe_from(records, index + 1),
        }
    }
}

fn find_duplicate_record(records: &Vec<StoryExtractionRecordPayload>, names: &Vec<String>, from: usize) -> (r:
    Option<usize>)
    ensures
        match r {
            Some(j) => duplicate_record(
                record_views(records@),
                names@.map_values(|k: String| k@),
                from as int,
            ) == Some(j as int) && from <= j < records@.len(),
            None => duplicate_record(
                record_views(records@),
                names@.map_values(|k: String| k@),
                from as int,
            ) is None,
        },
{
    let ghost rv = record_views(records@);
    let mut j: usize = from;
    while j < records.len()
        invariant
            rv == record_views(records@),
            from <= j,
            duplicate_record(rv, names@.map_values(|k: String| k@), from as int) == duplicate_record(
                rv,
                names@.map_values(|k: String| k@),
                j as int,
            ),
        decreases records@.len() - j,
    {
        proof {
            assert(rv[j as int] == record_view(records@[j as int]));
        }
        if str_eq(records[j].group_key.as_str(), GROUP_KEY_CHARACTER) && record_matches_key_list(
            &records[j],
            names,
        ) {
            return Some(j);
        }
        j += 1;
    }
    None
}

pub fn dedupe_character_records_by_identity(document: &mut StoryExtractionDocument)
    ensures
        final(document).schema_version == old(document).schema_version,
        final(document).chapter_num == old(document).chapter_num,
        record_views(final(document).records@) == dedupe_from(record_views(old(document).records@), 0),
{
    let ghost start = record_views(document.records@);
    let mut index: usize = 0;
    while index < document.records.len()
        invariant
            document.schema_version == old(document).schema_version,
            document.chapter_num == old(document).chapter_num,
            start == record_views(old(document).records@),
            0 <= index <= document.records@.len(),
            dedupe_from(start, 0) == dedupe_from(record_views(document.records@), index as int),
        decreases 2 * document.records@.len() - index,
    {
        let ghost rv = record_views(document.records@);
        proof {
            assert(rv[index as int] == record_view(document.records@[index as int]));
        }
        if !str_eq(document.records[index].group_key.as_str(), GROUP_KEY_CHARACTER) {
            index += 1;
        } else {
            let names = record_name_keys(&document.records[index]);
            match find_duplicate_record(&document.records, &names, index + 1) {
                Some(j) => {
                    let duplicate = document.records.remove(j);
                    let mut target = document.records.remove(index);
                    merge_character_record(&mut target, duplicate);
                    let ghost merged = record_view(target);
                    document.records.insert(index, target);
                    proof {
                        assert(record_views(document.records@) =~= rv.remove(j as int).update(
                            index as int,
                            merged,
                        ));
                    }
                },
                None => {
                    index += 1;
                },
            }
        }
    }
}

/// The first character record from `i` on with the name key `key`.
pub open spec fn exact_character_record(records: Seq<RecordView>, key: Seq<char>, i: int) -> Option<int>
    decreases records.len() - i,
{
    if i < 0 || i >= records.len() {
        None
    } else if records[i].0 == GROUP_KEY_CHARACTER@ && text_key(records[i].3, false) == key {
        Some(i)
    } else {
        exact_character_record(records, key, i + 1)
    }
}

/// The first record from `i` on that names one of `names`.
pub open spec fn named_record(records: Seq<RecordView>, names: Seq<Seq<char>>, i: int) -> Option<int>
    decreases records.len() - i,
{
    if i < 0 || i >= records.len() {
        None
    } else if record_matches_names(records[i], names) {
        Some(i)
    } else {
        named_record(records, names, i + 1)
    }
}

/// The records after an identity joins them: the record of the same character
/// (by exact name, else by any of its names) becomes its character record,
/// under its name, with its aliases merged in; else its record is added.
pub open spec fn identity_step(records: Seq<RecordView>, identity: CharacterIdentity, chapter: int) -> Seq<RecordView> {
    let record = identity_record(identity, chapter);
    let found = match exact_character_record(records, text_key(identity.name@, false), 0) {
        Some(i) => Some(i),
        None => named_record(records, identity_surface_key_list(identity), 0),
    };
    match found {
        Some(i) => records.update(
            i,
            merged_record(
                (GROUP_KEY_CHARACTER@, GROUP_LABEL_CHARACTER@, record.2, identity.name@, records[i].4, records[i].5),
                (record.0, record.1, None, record.3, record.4, record.5),
            ),
        ),
        None => records.push(record),
    }
}

pub open spec fn identities_scan(records: Seq<RecordView>, identities: Seq<CharacterIdentity>, chapter: int) -> Seq<
    RecordView,
>
    decreases identities.len(),
{
    if identities.len() == 0 {
        records
    } else {
        identity_step(identities_scan(records, identities.drop_last(), chapter), identities.last(), chapter)
    }
}

fn find_exact_character_record(records: &Vec<StoryExtractionRecordPayload>, key: &str) -> (r: Option<usize>)
    ensures
        match r {
            Some(i) => exact_character_record(record_views(records@), key@, 0) == Some(i as int) && i
                < records@.len(),
            None => exact_character_record(record_views(records@), key@, 0) is None,
        },
{
    let ghost rv = record_views(records@);
    let mut i: usize = 0;
    while i < records.len()
        invariant
            rv == record_views(records@),
            0 <= i <= records@.len(),
            exact_character_record(rv, key@, 0) == exact_character_record(rv, key@, i as int),
        decreases records@.len() - i,
    {
        proof {
            assert(rv[i as int] == record_view(records@[i as int]));
        }
        if str_eq(records[i].group_key.as_str(), GROUP_KEY_CHARACTER) && str_eq(
            normalized_text_key(records[i].display_name.as_str()).as_str(),
            key,
        ) {
            return Some(i);
        }
        i += 1;
    }
    None
}

fn find_named_record(records: &Vec<StoryExtractionRecordPayload>, names: &Vec<String>) -> (r: Option<usize>)
    ensures
        match r {
            Some(i) => named_record(record_views(records@), names@.map_values(|k: String| k@), 0) == Some(
                i as int,
            ) && i < records@.len(),
            None => named_record(record_views(records@), names@.map_values(|k: String| k@), 0) is None,
        },
{
    let ghost rv = record_views(records@);
    let mut i: usize = 0;
    while i < records.len()
        invariant
            rv == record_views(records@),
            0 <= i <= records@.len(),
            named_record(rv, names@.map_values(|k: String| k@), 0) == named_record(
                rv,
                names@.map_values(|k: String| k@),
                i as int,
            ),
        decreases records@.len() - i,
    {
        proof {
            assert(rv[i as int] == record_view(records@[i as int]));
        }
        if record_matches_key_list(&records[i], names) {
            return Some(i);
        }
        i += 1;
    }
    None
}

/// Each identity joins the records in
/// turn, then the character records are deduplicated.
pub fn merge_character_identity_records(document: &mut StoryExtractionDocument, identities: &Vec<CharacterIdentity>)
    ensures
        final(document).schema_version == old(document).schema_version,
        final(document).chapter_num == old(document).chapter_num,
        record_views(final(document).records@) == dedupe_from(
            identities_scan(record_views(old(document).records@), identities@, old(document).chapter_num as int),
            0,
        ),
{
    let ghost start = record_views(document.records@);
    let mut k: usize = 0;
    proof {
        assert(identities@.take(0) =~= Seq::<CharacterIdentity>::empty());
    }
    while k < identities.len()
        invariant
            document.schema_version == old(document).schema_version,
            document.chapter_num == old(document).chapter_num,
            start == record_views(old(document).records@),
            0 <= k <= identities@.len(),
            record_views(document.records@) == identities_scan(
                start,
                identities@.take(k as int),
                document.chapter_num as int,
            ),
        decreases identities@.len() - k,
    {
        proof {
            assert(identities@.take(k + 1).drop_last() =~= identities@.take(k as int));
            assert(identities@.take(k + 1).last() == identities@[k as int]);
        }
        let identity = &identities[k];
        let ghost rv = record_views(document.records@);
        let mut record = identity_to_record(identity, document.chapter_num);
        let name_key = normalized_text_key(identity.name.as_str());
        let found = match find_exact_character_record(&document.records, name_key.as_str()) {
            Some(i) => Some(i),
            None => {
                let names = character_identity_surface_keys(identity);
                find_named_record(&document.records, &names)
            },
        };
        match found {
            Some(index) => {
                let mut target = document.records.remove(index);
                proof {
                    assert(rv[index as int] == record_view(target));
                }
                target.group_key = owned(GROUP_KEY_CHARACTER);
                target.group_label = owned(GROUP_LABEL_CHARACTER);
                target.display_name = identity.name.clone();
                target.entity_key = record.entity_key.take();
                merge_character_record(&mut target, record);
                let ghost merged = record_view(target);
                document.records.insert(index, target);
                proof {
                    assert(record_views(document.records@) =~= rv.update(index as int, merged));
                }
            },
            None => {
                document.records.push(record);
                proof {
                    assert(record_views(document.records@) =~= rv.push(record_view(record)));
                }
            },
        }
        k += 1;
    }
    proof {
        assert(identities@.take(k as int) =~= identities@);
    }
    dedupe_character_records_by_identity(document);
}

} // verus!
