//! What the one-shot cloud pass makes of a model's answer for a chapter: the
//! chapter's extraction document (character records, then relationship
//! records), checked, and the items set aside for review.
use vstd::prelude::*;
use crate::cloud_characters::{build_character_records, character_records_from, cloud_character_views, CloudCharacter};
use crate::cloud_relationships::{
    build_relationship_records, built_from, rel_views, suspect_views, CloudRelationship, SuspectItem, SuspectView,
};
use crate::documents::{document_error, normalize_character_field_keys, record_views, validate_character_extraction_document};
use crate::domain::{Chapter, StoryEvidenceSpan};
use crate::extraction::CHARACTER_EXTRACTION_SCHEMA_VERSION;
use crate::keys::snake_key;
use crate::records::{StoryExtractionDocument, StoryExtractionRecordPayload};
use crate::cloud_extraction::CLOUD_CHAPTER_EXTRACTION_SCHEMA_VERSION;
use crate::text::{i64_to_string, int_decimal, owned, push_str, str_eq, trim, trim_str};

verus! {

/// The call status of a pass that set items aside for review.
pub const SUSPECT_MOVED_TO_REVIEW_STATUS: &'static str = "moved_to_review";

/// What a pass answers: the document, and whether it passed the checks
/// (else why not).
#[derive(Debug)]
pub struct CloudPassOutcome {
    pub document: StoryExtractionDocument,
    pub validation: Result<(), String>,
}

/// Why a model's answer is not for the chapter asked about: the code the
/// chapter run fails with, and the reason it gives.
#[derive(Debug, Clone)]
pub struct CloudAnswerMismatch {
    pub code: &'static str,
    pub reason: String,
}

pub const CODE_CLOUD_SCHEMA_MISMATCH: &'static str = "cloud_schema_mismatch";

pub const CODE_CLOUD_CHAPTER_NUM_MISMATCH: &'static str = "cloud_chapter_num_mismatch";

/// What the header of an answer says against the chapter: first its schema
/// version (trimmed) must be the cloud extraction's, then its chapter number
/// must be the chapter's.
pub open spec fn cloud_answer_header(
    schema_version: Seq<char>,
    answer_chapter_num: int,
    chapter_num: int,
) -> Result<(), (Seq<char>, Seq<char>)> {
    if trim(schema_version) != CLOUD_CHAPTER_EXTRACTION_SCHEMA_VERSION@ {
        Err(
            (
                CODE_CLOUD_SCHEMA_MISMATCH@,
                "cloud schema mismatch: expected "@ + CLOUD_CHAPTER_EXTRACTION_SCHEMA_VERSION@ + ", got "@
                    + schema_version,
            ),
        )
    } else if answer_chapter_num != chapter_num {
        Err(
            (
                CODE_CLOUD_CHAPTER_NUM_MISMATCH@,
                "cloud chapter mismatch: expected "@ + int_decimal(chapter_num) + ", got "@ + int_decimal(
                    answer_chapter_num,
                ),
            ),
        )
    } else {
        Ok(())
    }
}

/// Checks that a model's answer is for this chapter under the expected
/// schema before anything is built from it.
pub fn cloud_answer_header_check(schema_version: &str, answer_chapter_num: i64, chapter_num: i64) -> (r: Result<
    (),
    CloudAnswerMismatch,
>)
    ensures
        match (r, cloud_answer_header(schema_version@, answer_chapter_num as int, chapter_num as int)) {
            (Ok(()), Ok(())) => true,
            (Err(e), Err((code, reason))) => e.code@ == code && e.reason@ == reason,
            _ => false,
        },
{
    let trimmed = trim_str(schema_version);
    if !str_eq(trimmed.as_str(), CLOUD_CHAPTER_EXTRACTION_SCHEMA_VERSION) {
        let mut reason = owned("cloud schema mismatch: expected ");
        push_str(&mut reason, CLOUD_CHAPTER_EXTRACTION_SCHEMA_VERSION);
        push_str(&mut reason, ", got ");
        push_str(&mut reason, schema_version);
        return Err(CloudAnswerMismatch { code: CODE_CLOUD_SCHEMA_MISMATCH, reason });
    }
    if answer_chapter_num != chapter_num {
        let mut reason = owned("cloud chapter mismatch: expected ");
        push_str(&mut reason, i64_to_string(chapter_num).as_str());
        push_str(&mut reason, ", got ");
        push_str(&mut reason, i64_to_string(answer_chapter_num).as_str());
        return Err(CloudAnswerMismatch { code: CODE_CLOUD_CHAPTER_NUM_MISMATCH, reason });
    }
    Ok(())
}

/// `after` is `before` with each field key in snake case, all else kept.
pub open spec fn field_keys_normalized(
    before: Seq<StoryExtractionRecordPayload>,
    after: Seq<StoryExtractionRecordPayload>,
) -> bool {
    &&& after.len() == before.len()
    &&& forall|i: int|
        0 <= i < after.len() ==> {
            let r = #[trigger] after[i];
            let o = before[i];
            &&& r.group_key == o.group_key
            &&& r.group_label == o.group_label
            &&& r.entity_key == o.entity_key
            &&& r.display_name == o.display_name
            &&& r.mentions == o.mentions
            &&& r.fields@.len() == o.fields@.len()
            &&& forall|j: int|
                0 <= j < r.fields@.len() ==> (#[trigger] r.fields@[j]).field_key@ == snake_key(
                    o.fields@[j].field_key@,
                ) && r.fields@[j].field_label == o.fields@[j].field_label && r.fields@[j].values
                    == o.fields@[j].values
        }
}

/// `records` are what the characters and relationships give: the character
/// records as `built` makes them, then the relationship records resolved
/// against them with `evidence`, field keys normalized; the suspect items
/// go from `sus_before` through `sus_mid` to `sus_after`.
pub open spec fn cloud_records_from(
    content: Seq<char>,
    chapter_num: int,
    characters: Seq<CloudCharacter>,
    relationships: Seq<CloudRelationship>,
    sus_before: Seq<SuspectView>,
    sus_after: Seq<SuspectView>,
    records: Seq<StoryExtractionRecordPayload>,
    character_records: Seq<StoryExtractionRecordPayload>,
    relationship_records: Seq<StoryExtractionRecordPayload>,
    built: Seq<Option<StoryExtractionRecordPayload>>,
    evidence: Seq<Seq<StoryEvidenceSpan>>,
    sus_mid: Seq<SuspectView>,
) -> bool {
    &&& character_records_from(
        content,
        chapter_num,
        cloud_character_views(characters),
        built,
        sus_before,
        record_views(character_records),
        sus_mid,
    )
    &&& built_from(
        character_records,
        content,
        chapter_num,
        rel_views(relationships),
        evidence,
        sus_mid,
        record_views(relationship_records),
        sus_after,
    )
    &&& field_keys_normalized(character_records + relationship_records, records)
}

/// The message of a document that fails its checks.
pub open spec fn validation_failure(message: Seq<char>) -> Seq<char> {
    "cloud extraction validation failed: "@ + message
}

/// What the pass over an answer gives: the chapter's document, its records
/// built from the characters and relationships, the suspect items added, and
/// the check of the document.
pub open spec fn cloud_pass_result(
    chapter: Chapter,
    characters: Seq<CloudCharacter>,
    relationships: Seq<CloudRelationship>,
    sus_before: Seq<SuspectItem>,
    sus_after: Seq<SuspectItem>,
    o: CloudPassOutcome,
) -> bool {
    &&& o.document.schema_version@ == CHARACTER_EXTRACTION_SCHEMA_VERSION@
    &&& o.document.chapter_num == chapter.chapter_num
    &&& exists|
        character_records: Seq<StoryExtractionRecordPayload>,
        relationship_records: Seq<StoryExtractionRecordPayload>,
        built: Seq<Option<StoryExtractionRecordPayload>>,
        evidence: Seq<Seq<StoryEvidenceSpan>>,
        sus_mid: Seq<SuspectView>,
    |
        #[trigger] cloud_records_from(
            chapter.content@,
            chapter.chapter_num as int,
            characters,
            relationships,
            suspect_views(sus_before),
            suspect_views(sus_after),
            o.document.records@,
            character_records,
            relationship_records,
            built,
            evidence,
            sus_mid,
        )
    &&& match o.validation {
        Ok(()) => document_error(o.document, chapter.chapter_num as int, chapter.content@.len() as int) is None,
        Err(reason) => exists|m: Seq<char>|
            document_error(o.document, chapter.chapter_num as int, chapter.content@.len() as int) == Some(m)
                && reason@ == #[trigger] validation_failure(m),
    }
}

/// The extraction document a cloud answer gives for a chapter, checked; the
/// items set aside for review go to `suspect_items`.
pub fn cloud_pass_outcome(
    chapter: &Chapter,
    characters: &Vec<CloudCharacter>,
    relationships: &Vec<CloudRelationship>,
    suspect_items: &mut Vec<SuspectItem>,
) -> (r: CloudPassOutcome)
    requires
        chapter.content@.len() < i64::MAX,
    ensures
        cloud_pass_result(*chapter, characters@, relationships@, old(suspect_items)@, final(suspect_items)@, r),
{
    let ghost sus0 = suspect_views(suspect_items@);
    let character_records = build_character_records(chapter, characters, suspect_items);
    let ghost sus_mid = suspect_views(suspect_items@);
    let ghost chars = character_records@;
    let relationship_records = build_relationship_records(chapter, &character_records, relationships, suspect_items);
    let ghost rels = relationship_records@;
    let mut records = character_records;
    let mut more = relationship_records;
    records.append(&mut more);
    let mut document = StoryExtractionDocument {
        schema_version: owned(CHARACTER_EXTRACTION_SCHEMA_VERSION),
        chapter_num: chapter.chapter_num,
        records,
    };
    assert(document.records@ == chars + rels);
    normalize_character_field_keys(&mut document);
    let ghost built = choose|built: Seq<Option<StoryExtractionRecordPayload>>|
        #[trigger] character_records_from(
            chapter.content@,
            chapter.chapter_num as int,
            cloud_character_views(characters@),
            built,
            sus0,
            record_views(chars),
            sus_mid,
        );
    let ghost evidence = choose|evidence: Seq<Seq<StoryEvidenceSpan>>|
        #[trigger] built_from(
            chars,
            chapter.content@,
            chapter.chapter_num as int,
            rel_views(relationships@),
            evidence,
            sus_mid,
            record_views(rels),
            suspect_views(suspect_items@),
        );
    assert(cloud_records_from(
        chapter.content@,
        chapter.chapter_num as int,
        characters@,
        relationships@,
        sus0,
        suspect_views(suspect_items@),
        document.records@,
        chars,
        rels,
        built,
        evidence,
        sus_mid,
    ));
    let validation = match validate_character_extraction_document(&document, chapter.chapter_num, chapter.content.as_str()) {
        Ok(()) => Ok(()),
        Err(e) => {
            let mut reason = owned("cloud extraction validation failed: ");
            push_str(&mut reason, e.message.as_str());
            assert(reason@ == validation_failure(e.message@));
            Err(reason)
        },
    };
    CloudPassOutcome { document, validation }
}

/// The one-shot cloud pass over a model's answer: an answer under another
/// schema or for another chapter fails the chapter with its code and
/// reason, and nothing is built from it; otherwise the pass builds and
/// checks the chapter's document.
pub fn cloud_pass_for_answer(
    chapter: &Chapter,
    schema_version: &str,
    answer_chapter_num: i64,
    characters: &Vec<CloudCharacter>,
    relationships: &Vec<CloudRelationship>,
    suspect_items: &mut Vec<SuspectItem>,
) -> (r: Result<CloudPassOutcome, CloudAnswerMismatch>)
    requires
        chapter.content@.len() < i64::MAX,
    ensures
        match cloud_answer_header(schema_version@, answer_chapter_num as int, chapter.chapter_num as int) {
            Err((code, reason)) => r matches Err(e) && e.code@ == code && e.reason@ == reason
                && final(suspect_items)@ == old(suspect_items)@,
            Ok(()) => r matches Ok(o) && cloud_pass_result(
                *chapter,
                characters@,
                relationships@,
                old(suspect_items)@,
                final(suspect_items)@,
                o,
            ),
        },
{
    match cloud_answer_header_check(schema_version, answer_chapter_num, chapter.chapter_num) {
        Err(e) => Err(e),
        Ok(()) => Ok(cloud_pass_outcome(chapter, characters, relationships, suspect_items)),
    }
}

} // verus!
