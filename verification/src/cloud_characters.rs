//! Character records from a cloud extraction: each character the model
//! reported is kept under its cleaned name, with the aliases that pass, the
//! mentions of its surfaces in the chapter, and the appearance values whose
//! quotes are found in the chapter.
use vstd::prelude::*;
use crate::characters::{
    alias_view, alias_views, identity_surface_items, lemma_pushed_alias_views, push_character_alias_if_valid,
    pushed_alias_views, AliasView, CharacterAlias, CharacterIdentity,
};
use crate::cloud_records::{
    identity_scan, field_is_mvp_appearance, identity_mentions, map_quotes_to_evidence, mention_views, mvp_appearance,
    quotes_scan, scan_identity_mentions, MentionView,
};
use crate::alias_merges::{
    merge_probable_alias_character_records, merge_suspect, merged_into, probable_merges, view_low_signal,
    view_merge_target,
};
use crate::cloud_records::{merge_record_fields, merge_record_mentions};
use crate::cloud_relationships::{
    detail, find_record_with_key, keys_distinct, lemma_record_with_key_none, lemma_record_with_key_some, record_with_key,
    suspect, suspect_view, suspect_views, SuspectItem, SuspectView,
};
use crate::documents::{record_view, record_views, RecordView};
use crate::documents::{FIELD_KEY_OTHER_ALIAS, FIELD_LABEL_OTHER_ALIAS, GROUP_KEY_CHARACTER, GROUP_LABEL_CHARACTER};
use crate::domain::Chapter;
use crate::keys::{normalize_ascii_snake_key, snake_key};
use crate::occurrences::{non_overlapping, OccView};
use crate::surfaces::{clean_character_surface, clean_surface};
use crate::field_context::{FIELD_KEY_APPEARANCE, FIELD_LABEL_APPEARANCE};
use crate::records::{
    cloud_key, normalize_cloud_schema_key, StoryExtractionFieldPayload, StoryExtractionFieldValuePayload,
};
use crate::relationship_pass::{span_views, SpanView};
use crate::characters::surfaces_scan;
use crate::text::{opt_view, owned, str_eq, trim, trim_str};

verus! {

/// The reason given to the evidence of a cloud appearance value.
pub const EVIDENCE_REASON_CLOUD_FIELD: &'static str = "cloud_field";

/// A field a cloud extraction reported for a character. Its confidence is
/// the caller's to keep.
#[derive(Debug, Clone)]
pub struct CloudCharacterField {
    pub field_key: String,
    pub field_label: String,
    pub value: String,
    pub semantic_class: String,
    pub evidence_quotes: Vec<String>,
}

/// A character a cloud extraction reported. Its confidence is the caller's:
/// characters under the threshold are not handed in.
#[derive(Debug, Clone)]
pub struct CloudCharacter {
    pub display_name: String,
    pub aliases: Vec<String>,
    pub entity_nature: String,
    pub fields: Vec<CloudCharacterField>,
    pub evidence_quotes: Vec<String>,
}

/// A cloud field as the specifications see it: key, label, value, semantic
/// class, quotes.
pub type CloudFieldView = (Seq<char>, Seq<char>, Seq<char>, Seq<char>, Seq<Seq<char>>);

pub open spec fn cloud_field_view(f: CloudCharacterField) -> CloudFieldView {
    (f.field_key@, f.field_label@, f.value@, f.semantic_class@, f.evidence_quotes@.map_values(|q: String| q@))
}

pub open spec fn cloud_field_views(fs: Seq<CloudCharacterField>) -> Seq<CloudFieldView> {
    fs.map_values(|f: CloudCharacterField| cloud_field_view(f))
}

// ------------------------------------------------------------------------
// Appearance fields.
// ------------------------------------------------------------------------
/// The spans the quotes of a field give in the chapter.
pub open spec fn field_evidence(content: Seq<char>, chapter_num: int, f: CloudFieldView) -> Seq<SpanView> {
    quotes_scan(content, chapter_num, f.4, EVIDENCE_REASON_CLOUD_FIELD@).0
}

/// A field is kept as an appearance value: it has a value, belongs to the
/// appearance pass, and a quote of it is found.
pub open spec fn field_kept(content: Seq<char>, chapter_num: int, f: CloudFieldView) -> bool {
    &&& trim(f.2).len() > 0
    &&& mvp_appearance(cloud_key(f.0), cloud_key(f.3))
    &&& field_evidence(content, chapter_num, f).len() > 0
}

/// Why a field with a value is set aside for review, if it is.
pub open spec fn field_suspect(display_name: Seq<char>, content: Seq<char>, chapter_num: int, f: CloudFieldView) -> Option<
    SuspectView,
> {
    let key = cloud_key(f.0);
    let class = cloud_key(f.3);
    if trim(f.2).len() == 0 {
        None
    } else if !mvp_appearance(key, class) {
        Some(
            (
                "field_semantic_class_not_persistable"@,
                seq![
                    ("display_name"@, display_name),
                    ("field_key"@, key),
                    ("semantic_class"@, class),
                    ("field_label"@, f.1),
                    ("value"@, f.2),
                ],
                seq![],
            ),
        )
    } else if field_evidence(content, chapter_num, f).len() == 0 {
        Some(
            (
                "field_evidence_not_found_in_chapter"@,
                seq![("display_name"@, display_name), ("value"@, f.2), ("semantic_class"@, class)],
                seq![],
            ),
        )
    } else {
        None
    }
}

pub open spec fn field_suspects(
    display_name: Seq<char>,
    content: Seq<char>,
    chapter_num: int,
    fs: Seq<CloudFieldView>,
) -> Seq<SuspectView>
    decreases fs.len(),
{
    if fs.len() == 0 {
        seq![]
    } else {
        let prev = field_suspects(display_name, content, chapter_num, fs.drop_last());
        match field_suspect(display_name, content, chapter_num, fs.last()) {
            Some(x) => prev.push(x),
            None => prev,
        }
    }
}

/// The fields kept as appearance values, in order.
pub open spec fn kept_fields(content: Seq<char>, chapter_num: int, fs: Seq<CloudFieldView>) -> Seq<CloudFieldView>
    decreases fs.len(),
{
    if fs.len() == 0 {
        seq![]
    } else {
        let prev = kept_fields(content, chapter_num, fs.drop_last());
        if field_kept(content, chapter_num, fs.last()) {
            prev.push(fs.last())
        } else {
            prev
        }
    }
}

/// A value of the appearance field, as built from the field `f`.
pub open spec fn appearance_value_matches(
    v: StoryExtractionFieldValuePayload,
    content: Seq<char>,
    chapter_num: int,
    f: CloudFieldView,
) -> bool {
    &&& v.value@ == trim(f.2)
    &&& v.related_character is None
    &&& v.relationship_type is None
    &&& v.relationship_label is None
    &&& v.relationship_direction is None
    &&& span_views(v.evidence@) == field_evidence(content, chapter_num, f)
}

/// The fields of a character: one appearance field with a value for each
/// kept field, or none when no field is kept.
pub open spec fn appearance_fields_match(
    r: Seq<StoryExtractionFieldPayload>,
    content: Seq<char>,
    chapter_num: int,
    fs: Seq<CloudFieldView>,
) -> bool {
    let kept = kept_fields(content, chapter_num, fs);
    if kept.len() == 0 {
        r.len() == 0
    } else {
        &&& r.len() == 1
        &&& r[0].field_key@ == FIELD_KEY_APPEARANCE@
        &&& r[0].field_label@ == FIELD_LABEL_APPEARANCE@
        &&& r[0].values@.len() == kept.len()
        &&& forall|k: int|
            0 <= k < kept.len() ==> appearance_value_matches(#[trigger] r[0].values@[k], content, chapter_num, kept[k])
    }
}

/// Takes in one field: its value, when kept, goes to `values`; the reason it
/// is set aside, when it is, to `suspect_items`.
fn take_cloud_field(
    chapter: &Chapter,
    display_name: &str,
    field: &CloudCharacterField,
    values: &mut Vec<StoryExtractionFieldValuePayload>,
    suspect_items: &mut Vec<SuspectItem>,
)
    requires
        chapter.content@.len() < i64::MAX,
    ensures
        ({
            let f = cloud_field_view(*field);
            let content = chapter.content@;
            let num = chapter.chapter_num as int;
            &&& if field_kept(content, num, f) {
                &&& final(values)@.len() == old(values)@.len() + 1
                &&& final(values)@.take(old(values)@.len() as int) == old(values)@
                &&& appearance_value_matches(final(values)@.last(), content, num, f)
            } else {
                final(values)@ == old(values)@
            }
            &&& suspect_views(final(suspect_items)@) == match field_suspect(display_name@, content, num, f) {
                Some(x) => suspect_views(old(suspect_items)@).push(x),
                None => suspect_views(old(suspect_items)@),
            }
        }),
{
    let ghost f = cloud_field_view(*field);
    let ghost sus0 = suspect_views(suspect_items@);
    let value = trim_str(field.value.as_str());
    if value.as_str().is_empty() {
        return;
    }
    let field_key = normalize_cloud_schema_key(field.field_key.as_str());
    let semantic_class = normalize_cloud_schema_key(field.semantic_class.as_str());
    if !field_is_mvp_appearance(field_key.as_str(), semantic_class.as_str()) {
        let details = vec![
            detail("display_name", display_name),
            detail("field_key", field_key.as_str()),
            detail("semantic_class", semantic_class.as_str()),
            detail("field_label", field.field_label.as_str()),
            detail("value", field.value.as_str()),
        ];
        let item = suspect("field_semantic_class_not_persistable", details);
        suspect_items.push(item);
        proof {
            let expected = field_suspect(display_name@, chapter.content@, chapter.chapter_num as int, f)->0;
            assert(suspect_view(item).1 =~= expected.1);
            assert(suspect_view(item).2 =~= Seq::<Seq<char>>::empty());
            assert(suspect_views(suspect_items@) =~= sus0.push(suspect_view(item)));
        }
        return;
    }
    let evidence = map_quotes_to_evidence(chapter, &field.evidence_quotes, EVIDENCE_REASON_CLOUD_FIELD);
    if evidence.len() == 0 {
        let details = vec![
            detail("display_name", display_name),
            detail("value", field.value.as_str()),
            detail("semantic_class", semantic_class.as_str()),
        ];
        let item = suspect("field_evidence_not_found_in_chapter", details);
        suspect_items.push(item);
        proof {
            let expected = field_suspect(display_name@, chapter.content@, chapter.chapter_num as int, f)->0;
            assert(suspect_view(item).1 =~= expected.1);
            assert(suspect_view(item).2 =~= Seq::<Seq<char>>::empty());
            assert(suspect_views(suspect_items@) =~= sus0.push(suspect_view(item)));
        }
        return;
    }
    values.push(
        StoryExtractionFieldValuePayload {
            value,
            related_character: None,
            relationship_type: None,
            relationship_label: None,
            relationship_direction: None,
            evidence,
        },
    );
    proof {
        assert(values@.take(old(values)@.len() as int) =~= old(values)@);
    }
}

/// The appearance field of a cloud character,
/// from the fields that belong to the appearance pass and are grounded in the
/// chapter; the others that have a value are set aside for review.
pub fn build_character_fields(
    chapter: &Chapter,
    character: &CloudCharacter,
    suspect_items: &mut Vec<SuspectItem>,
) -> (r: Vec<StoryExtractionFieldPayload>)
    requires
        chapter.content@.len() < i64::MAX,
    ensures
        appearance_fields_match(
            r@,
            chapter.content@,
            chapter.chapter_num as int,
            cloud_field_views(character.fields@),
        ),
        suspect_views(final(suspect_items)@) == suspect_views(old(suspect_items)@) + field_suspects(
            character.display_name@,
            chapter.content@,
            chapter.chapter_num as int,
            cloud_field_views(character.fields@),
        ),
{
    let ghost content = chapter.content@;
    let ghost num = chapter.chapter_num as int;
    let ghost fvs = cloud_field_views(character.fields@);
    let ghost sus0 = suspect_views(suspect_items@);
    let mut values: Vec<StoryExtractionFieldValuePayload> = Vec::new();
    let mut i: usize = 0;
    proof {
        assert(fvs.take(0) =~= Seq::<CloudFieldView>::empty());
        assert(sus0 + Seq::<SuspectView>::empty() =~= sus0);
    }
    while i < character.fields.len()
        invariant
            chapter.content@.len() < i64::MAX,
            content == chapter.content@,
            num == chapter.chapter_num as int,
            fvs == cloud_field_views(character.fields@),
            0 <= i <= fvs.len(),
            values@.len() == kept_fields(content, num, fvs.take(i as int)).len(),
            forall|k: int|
                0 <= k < values@.len() ==> appearance_value_matches(
                    #[trigger] values@[k],
                    content,
                    num,
                    kept_fields(content, num, fvs.take(i as int))[k],
                ),
            suspect_views(suspect_items@) == sus0 + field_suspects(
                character.display_name@,
                content,
                num,
                fvs.take(i as int),
            ),
        decreases fvs.len() - i,
    {
        let ghost before = values@;
        let ghost kept_before = kept_fields(content, num, fvs.take(i as int));
        proof {
            assert(fvs.take(i + 1).drop_last() =~= fvs.take(i as int));
            assert(fvs.take(i + 1).last() == cloud_field_view(character.fields@[i as int]));
        }
        take_cloud_field(chapter, character.display_name.as_str(), &character.fields[i], &mut values, suspect_items);
        proof {
            let f = fvs[i as int];
            if field_kept(content, num, f) {
                assert forall|k: int| 0 <= k < values@.len() implies appearance_value_matches(
                    #[trigger] values@[k],
                    content,
                    num,
                    kept_fields(content, num, fvs.take(i + 1))[k],
                ) by {
                    if k < before.len() {
                        assert(values@[k] == values@.take(before.len() as int)[k]);
                    }
                }
            }
            let fs = field_suspects(character.display_name@, content, num, fvs.take(i as int));
            match field_suspect(character.display_name@, content, num, f) {
                Some(x) => {
                    assert(sus0 + fs.push(x) =~= (sus0 + fs).push(x));
                },
                None => {},
            }
        }
        i += 1;
    }
    proof {
        assert(fvs.take(i as int) =~= fvs);
    }
    if values.len() == 0 {
        return Vec::new();
    }
    let field = StoryExtractionFieldPayload {
        field_key: owned(FIELD_KEY_APPEARANCE),
        field_label: owned(FIELD_LABEL_APPEARANCE),
        values,
    };
    let out = vec![field];
    proof {
        assert(out@[0] == field);
    }
    out
}


// ------------------------------------------------------------------------
// The record of one character.
// ------------------------------------------------------------------------
/// A cloud character as the specifications see it: name, aliases, entity
/// nature, fields, quotes.
pub type CloudCharacterView = (Seq<char>, Seq<Seq<char>>, Seq<char>, Seq<CloudFieldView>, Seq<Seq<char>>);

pub open spec fn cloud_character_view(c: CloudCharacter) -> CloudCharacterView {
    (
        c.display_name@,
        c.aliases@.map_values(|a: String| a@),
        c.entity_nature@,
        cloud_field_views(c.fields@),
        c.evidence_quotes@.map_values(|q: String| q@),
    )
}

pub open spec fn cloud_character_views(cs: Seq<CloudCharacter>) -> Seq<CloudCharacterView> {
    cs.map_values(|c: CloudCharacter| cloud_character_view(c))
}

/// An entity nature that is no character of its own.
pub open spec fn nature_not_persistable(nature: Seq<char>) -> bool {
    nature == "temporary_reference"@ || nature == "role_title"@ || nature == "uncertain"@
}

/// The aliases of a character named `name`, as the reported alias texts are
/// offered to it in turn.
pub open spec fn candidate_alias_views(name: Seq<char>, texts: Seq<Seq<char>>) -> Seq<AliasView>
    decreases texts.len(),
{
    if texts.len() == 0 {
        seq![]
    } else {
        let prev = candidate_alias_views(name, texts.drop_last());
        let t = clean_surface(texts.last());
        if t.len() == 0 {
            prev
        } else {
            pushed_alias_views(prev, (t, FIELD_KEY_OTHER_ALIAS@, FIELD_LABEL_OTHER_ALIAS@, false, seq![]), name)
        }
    }
}

/// The surfaces of a character with this name and these alias texts.
pub open spec fn named_surface_items(name: Seq<char>, texts: Seq<Seq<char>>) -> Seq<(Seq<char>, Seq<char>)> {
    seq![(clean_surface(name), "name"@)] + texts.map_values(|t: Seq<char>| (clean_surface(t), "alias"@))
}

/// The mentions of such a character in the chapter.
pub open spec fn named_mentions(content: Seq<char>, name: Seq<char>, texts: Seq<Seq<char>>) -> Seq<MentionView> {
    non_overlapping(identity_scan(surfaces_scan(named_surface_items(name, texts)).0, content)).map_values(
        |o: OccView| (o.0, o.1, o.2, Some(o.3)),
    )
}

pub open spec fn alias_texts_of(aliases: Seq<AliasView>) -> Seq<Seq<char>> {
    aliases.map_values(|a: AliasView| a.0)
}

pub open spec fn candidate_name(c: CloudCharacterView) -> Seq<char> {
    clean_surface(c.0)
}

pub open spec fn candidate_aliases(c: CloudCharacterView) -> Seq<AliasView> {
    candidate_alias_views(candidate_name(c), c.1)
}

pub open spec fn candidate_mentions(content: Seq<char>, c: CloudCharacterView) -> Seq<MentionView> {
    named_mentions(content, candidate_name(c), alias_texts_of(candidate_aliases(c)))
}

/// A candidate becomes a record: its nature is a character's, and its
/// cleaned name is not empty.
pub open spec fn candidate_kept(c: CloudCharacterView) -> bool {
    !nature_not_persistable(cloud_key(c.2)) && candidate_name(c).len() > 0
}

/// What a candidate sets aside for review.
pub open spec fn candidate_suspects(content: Seq<char>, chapter_num: int, c: CloudCharacterView) -> Seq<SuspectView> {
    let nature = cloud_key(c.2);
    if nature_not_persistable(nature) {
        seq![
            (
                "character_entity_nature_not_persistable"@,
                seq![("display_name"@, c.0), ("entity_nature"@, nature)],
                seq![],
            ),
        ]
    } else if candidate_name(c).len() == 0 {
        seq![]
    } else {
        let unseen: Seq<SuspectView> = if candidate_mentions(content, c).len() == 0 && c.4.len() > 0 {
            seq![("character_mentions_not_found_from_surfaces"@, seq![("display_name"@, c.0)], c.4)]
        } else {
            seq![]
        };
        unseen + field_suspects(c.0, content, chapter_num, c.3)
    }
}

/// The alias values of a record: each alias text, trimmed, that is not blank.
pub open spec fn alias_value_texts(texts: Seq<Seq<char>>) -> Seq<Seq<char>>
    decreases texts.len(),
{
    if texts.len() == 0 {
        seq![]
    } else {
        let prev = alias_value_texts(texts.drop_last());
        if trim(texts.last()).len() > 0 {
            prev.push(trim(texts.last()))
        } else {
            prev
        }
    }
}

/// A plain value with this text and no evidence.
pub open spec fn plain_value_matches(v: StoryExtractionFieldValuePayload, text: Seq<char>) -> bool {
    &&& v.value@ == text
    &&& v.related_character is None
    &&& v.relationship_type is None
    &&& v.relationship_label is None
    &&& v.relationship_direction is None
    &&& v.evidence@.len() == 0
}

/// The alias field of a record holds these alias values.
pub open spec fn alias_field_matches(f: StoryExtractionFieldPayload, texts: Seq<Seq<char>>) -> bool {
    &&& f.field_key@ == FIELD_KEY_OTHER_ALIAS@
    &&& f.field_label@ == FIELD_LABEL_OTHER_ALIAS@
    &&& f.values@.len() == texts.len()
    &&& forall|k: int| 0 <= k < texts.len() ==> plain_value_matches(#[trigger] f.values@[k], texts[k])
}

/// The record a kept candidate is built into: the cleaned name and its key,
/// the mentions of its surfaces, the appearance field, then the alias field.
pub open spec fn candidate_record_matches(
    r: crate::records::StoryExtractionRecordPayload,
    content: Seq<char>,
    chapter_num: int,
    c: CloudCharacterView,
) -> bool {
    let name = candidate_name(c);
    let texts = alias_value_texts(alias_texts_of(candidate_aliases(c)));
    let appearance: int = if kept_fields(content, chapter_num, c.3).len() > 0 {
        1
    } else {
        0
    };
    &&& r.group_key@ == GROUP_KEY_CHARACTER@
    &&& r.group_label@ == GROUP_LABEL_CHARACTER@
    &&& opt_view(r.entity_key) == Some(snake_key(name))
    &&& r.display_name@ == name
    &&& mention_views(r.mentions@) == candidate_mentions(content, c)
    &&& r.fields@.len() == appearance + if texts.len() > 0 {
        1int
    } else {
        0int
    }
    &&& appearance_fields_match(r.fields@.take(appearance), content, chapter_num, c.3)
    &&& texts.len() > 0 ==> alias_field_matches(r.fields@[appearance], texts)
}

/// The aliases of a character named `name` from the reported alias texts.
fn candidate_aliases_of(name: &String, texts: &Vec<String>) -> (r: Vec<CharacterAlias>)
    ensures
        alias_views(r@) == candidate_alias_views(name@, texts@.map_values(|a: String| a@)),
{
    let ghost tv = texts@.map_values(|a: String| a@);
    let mut aliases: Vec<CharacterAlias> = Vec::new();
    let mut i: usize = 0;
    proof {
        assert(tv.take(0) =~= Seq::<Seq<char>>::empty());
        assert(alias_views(aliases@) =~= Seq::<AliasView>::empty());
    }
    while i < texts.len()
        invariant
            tv == texts@.map_values(|a: String| a@),
            0 <= i <= tv.len(),
            alias_views(aliases@) == candidate_alias_views(name@, tv.take(i as int)),
        decreases tv.len() - i,
    {
        proof {
            assert(tv.take(i + 1).drop_last() =~= tv.take(i as int));
            assert(tv.take(i + 1).last() == texts@[i as int]@);
        }
        let text = clean_character_surface(texts[i].as_str());
        if !text.as_str().is_empty() {
            let alias = CharacterAlias {
                text,
                alias_type: owned(FIELD_KEY_OTHER_ALIAS),
                alias_label: owned(FIELD_LABEL_OTHER_ALIAS),
                is_primary: false,
                evidence: Vec::new(),
            };
            let ghost before = aliases@;
            proof {
                assert(alias_view(alias) =~= (
                    clean_surface(tv[i as int]),
                    FIELD_KEY_OTHER_ALIAS@,
                    FIELD_LABEL_OTHER_ALIAS@,
                    false,
                    Seq::<crate::domain::StoryEvidenceSpan>::empty(),
                ));
            }
            push_character_alias_if_valid(&mut aliases, alias, name.as_str());
            proof {
                lemma_pushed_alias_views(before, alias, name@, aliases@);
            }
        }
        i += 1;
    }
    proof {
        assert(tv.take(i as int) =~= tv);
    }
    aliases
}

/// The values of the alias field: each alias text, trimmed, that is not blank.
fn alias_value_payloads(aliases: &Vec<CharacterAlias>) -> (r: Vec<StoryExtractionFieldValuePayload>)
    ensures
        r@.len() == alias_value_texts(alias_texts_of(alias_views(aliases@))).len(),
        forall|k: int|
            0 <= k < r@.len() ==> plain_value_matches(
                #[trigger] r@[k],
                alias_value_texts(alias_texts_of(alias_views(aliases@)))[k],
            ),
{
    let ghost texts = alias_texts_of(alias_views(aliases@));
    let mut out: Vec<StoryExtractionFieldValuePayload> = Vec::new();
    let mut i: usize = 0;
    proof {
        assert(texts.take(0) =~= Seq::<Seq<char>>::empty());
    }
    while i < aliases.len()
        invariant
            texts == alias_texts_of(alias_views(aliases@)),
            texts.len() == aliases@.len(),
            0 <= i <= aliases@.len(),
            out@.len() == alias_value_texts(texts.take(i as int)).len(),
            forall|k: int|
                0 <= k < out@.len() ==> plain_value_matches(#[trigger] out@[k], alias_value_texts(texts.take(i as int))[k]),
        decreases aliases@.len() - i,
    {
        proof {
            assert(texts.take(i + 1).drop_last() =~= texts.take(i as int));
            assert(texts.take(i + 1).last() == aliases@[i as int].text@);
        }
        let value = trim_str(aliases[i].text.as_str());
        if !value.as_str().is_empty() {
            out.push(
                StoryExtractionFieldValuePayload {
                    value,
                    related_character: None,
                    relationship_type: None,
                    relationship_label: None,
                    relationship_direction: None,
                    evidence: Vec::new(),
                },
            );
        }
        i += 1;
    }
    proof {
        assert(texts.take(i as int) =~= texts);
    }
    out
}

fn copy_texts(texts: &Vec<String>) -> (r: Vec<String>)
    ensures
        r@.map_values(|t: String| t@) == texts@.map_values(|t: String| t@),
{
    let mut out: Vec<String> = Vec::new();
    let mut i: usize = 0;
    while i < texts.len()
        invariant
            0 <= i <= texts@.len(),
            out@.map_values(|t: String| t@) == texts@.take(i as int).map_values(|t: String| t@),
        decreases texts@.len() - i,
    {
        let ghost before = out@;
        let text = texts[i].clone();
        out.push(text);
        proof {
            assert(texts@.take(i + 1) =~= texts@.take(i as int).push(texts@[i as int]));
            assert(out@ == before.push(text));
            assert(out@.map_values(|t: String| t@) =~= before.map_values(|t: String| t@).push(text@));
            assert(texts@.take(i + 1).map_values(|t: String| t@) =~= texts@.take(i as int).map_values(
                |t: String| t@,
            ).push(texts@[i as int]@));
        }
        i += 1;
    }
    proof {
        assert(texts@.take(i as int) =~= texts@);
    }
    out
}


/// The record a cloud character is kept as, when it is kept; what it sets
/// aside for review goes to `suspect_items`.
#[verifier::rlimit(40)]
pub fn cloud_character_record(
    chapter: &Chapter,
    candidate: &CloudCharacter,
    suspect_items: &mut Vec<SuspectItem>,
) -> (r: Option<crate::records::StoryExtractionRecordPayload>)
    requires
        chapter.content@.len() < i64::MAX,
    ensures
        suspect_views(final(suspect_items)@) == suspect_views(old(suspect_items)@) + candidate_suspects(
            chapter.content@,
            chapter.chapter_num as int,
            cloud_character_view(*candidate),
        ),
        match r {
            Some(record) => candidate_kept(cloud_character_view(*candidate)) && candidate_record_matches(
                record,
                chapter.content@,
                chapter.chapter_num as int,
                cloud_character_view(*candidate),
            ),
            None => !candidate_kept(cloud_character_view(*candidate)),
        },
{
    let ghost c = cloud_character_view(*candidate);
    let ghost content = chapter.content@;
    let ghost num = chapter.chapter_num as int;
    let ghost sus0 = suspect_views(suspect_items@);
    let nature = normalize_cloud_schema_key(candidate.entity_nature.as_str());
    if str_eq(nature.as_str(), "temporary_reference") || str_eq(nature.as_str(), "role_title") || str_eq(
        nature.as_str(),
        "uncertain",
    ) {
        let details = vec![
            detail("display_name", candidate.display_name.as_str()),
            detail("entity_nature", nature.as_str()),
        ];
        let item = suspect("character_entity_nature_not_persistable", details);
        suspect_items.push(item);
        proof {
            let expected = candidate_suspects(content, num, c)[0];
            assert(suspect_view(item).1 =~= expected.1);
            assert(suspect_view(item).2 =~= expected.2);
            assert(suspect_views(suspect_items@) =~= sus0 + candidate_suspects(content, num, c));
        }
        return None;
    }
    let name = clean_character_surface(candidate.display_name.as_str());
    if name.as_str().is_empty() {
        proof {
            assert(sus0 + candidate_suspects(content, num, c) =~= sus0);
        }
        return None;
    }
    let aliases = candidate_aliases_of(&name, &candidate.aliases);
    let identity = CharacterIdentity { name: name.clone(), aliases };
    proof {
        assert(identity_surface_items(identity) =~= named_surface_items(
            name@,
            alias_texts_of(alias_views(identity.aliases@)),
        ));
        assert(alias_views(identity.aliases@) == candidate_aliases(c));
    }
    let mentions = scan_identity_mentions(chapter, &identity);
    let ghost unseen: Seq<SuspectView> = if candidate_mentions(content, c).len() == 0 && c.4.len() > 0 {
        seq![("character_mentions_not_found_from_surfaces"@, seq![("display_name"@, c.0)], c.4)]
    } else {
        seq![]
    };
    if mentions.len() == 0 && candidate.evidence_quotes.len() > 0 {
        let item = SuspectItem {
            reason: owned("character_mentions_not_found_from_surfaces"),
            details: vec![detail("display_name", candidate.display_name.as_str())],
            evidence_quotes: copy_texts(&candidate.evidence_quotes),
        };
        suspect_items.push(item);
        proof {
            assert(suspect_view(item).1 =~= unseen[0].1);
            assert(suspect_views(suspect_items@) =~= sus0 + unseen);
        }
    } else {
        proof {
            assert(suspect_views(suspect_items@) =~= sus0 + unseen);
        }
    }
    let mut fields = build_character_fields(chapter, candidate, suspect_items);
    proof {
        assert(sus0 + unseen + field_suspects(c.0, content, num, c.3) =~= sus0 + candidate_suspects(
            content,
            num,
            c,
        ));
    }
    let ghost appearance_fields = fields@;
    let alias_values = alias_value_payloads(&identity.aliases);
    if alias_values.len() > 0 {
        let field = StoryExtractionFieldPayload {
            field_key: owned(FIELD_KEY_OTHER_ALIAS),
            field_label: owned(FIELD_LABEL_OTHER_ALIAS),
            values: alias_values,
        };
        fields.push(field);
        proof {
            assert(fields@.take(appearance_fields.len() as int) =~= appearance_fields);
            assert(fields@[appearance_fields.len() as int] == field);
        }
    } else {
        proof {
            assert(fields@.take(appearance_fields.len() as int) =~= appearance_fields);
        }
    }
    let key = normalize_ascii_snake_key(identity.name.as_str());
    let record = crate::records::StoryExtractionRecordPayload {
        group_key: owned(GROUP_KEY_CHARACTER),
        group_label: owned(GROUP_LABEL_CHARACTER),
        entity_key: Some(key),
        display_name: identity.name,
        mentions,
        fields,
    };
    Some(record)
}


// ------------------------------------------------------------------------
// The records of all characters.
// ------------------------------------------------------------------------
/// The records in turn, each merged into the earlier one with its entity
/// key, or added.
pub open spec fn keyed_records(recs: Seq<RecordView>) -> Seq<RecordView>
    decreases recs.len(),
{
    if recs.len() == 0 {
        seq![]
    } else {
        let prev = keyed_records(recs.drop_last());
        let r = recs.last();
        match r.2 {
            Some(k) => match record_with_key(prev, k, 0) {
                Some(i) => prev.update(i, merged_into(prev[i], r)),
                None => prev.push(r),
            },
            None => prev.push(r),
        }
    }
}

/// The views of the records that were built, in order.
pub open spec fn built_views(built: Seq<Option<crate::records::StoryExtractionRecordPayload>>) -> Seq<RecordView>
    decreases built.len(),
{
    if built.len() == 0 {
        seq![]
    } else {
        let prev = built_views(built.drop_last());
        match built.last() {
            Some(r) => prev.push(record_view(r)),
            None => prev,
        }
    }
}

/// What the candidates set aside for review, in turn.
pub open spec fn all_candidate_suspects(content: Seq<char>, chapter_num: int, cs: Seq<CloudCharacterView>) -> Seq<
    SuspectView,
>
    decreases cs.len(),
{
    if cs.len() == 0 {
        seq![]
    } else {
        all_candidate_suspects(content, chapter_num, cs.drop_last()) + candidate_suspects(content, chapter_num, cs.last())
    }
}

/// `built[i]` is what the `i`-th candidate gives.
pub open spec fn candidates_built(
    content: Seq<char>,
    chapter_num: int,
    cs: Seq<CloudCharacterView>,
    built: Seq<Option<crate::records::StoryExtractionRecordPayload>>,
) -> bool {
    &&& built.len() == cs.len()
    &&& forall|i: int|
        0 <= i < cs.len() ==> match #[trigger] built[i] {
            Some(r) => candidate_kept(cs[i]) && candidate_record_matches(r, content, chapter_num, cs[i]),
            None => !candidate_kept(cs[i]),
        }
}

/// `recs` and `sus` are what the candidates give, built as `built`: their
/// records merged by key, then the weak ones merged into the records they
/// are probably an alias of; the suspect items after `sus_before`.
pub open spec fn character_records_from(
    content: Seq<char>,
    chapter_num: int,
    cs: Seq<CloudCharacterView>,
    built: Seq<Option<crate::records::StoryExtractionRecordPayload>>,
    sus_before: Seq<SuspectView>,
    recs: Seq<RecordView>,
    sus: Seq<SuspectView>,
) -> bool {
    let merged = probable_merges(
        keyed_records(built_views(built)),
        0,
        sus_before + all_candidate_suspects(content, chapter_num, cs),
    );
    &&& candidates_built(content, chapter_num, cs, built)
    &&& recs == merged.0
    &&& sus == merged.1
}

/// A record added to `output`: merged into the one with its entity key, or
/// pushed.
fn add_character_record(output: &mut Vec<crate::records::StoryExtractionRecordPayload>, record: crate::records::StoryExtractionRecordPayload)
    ensures
        ({
            let prev = record_views(old(output)@);
            let r = record_view(record);
            record_views(final(output)@) == match r.2 {
                Some(k) => match record_with_key(prev, k, 0) {
                    Some(i) => prev.update(i, merged_into(prev[i], r)),
                    None => prev.push(r),
                },
                None => prev.push(r),
            }
        }),
{
    let ghost prev = record_views(output@);
    let ghost r = record_view(record);
    let found = match &record.entity_key {
        Some(k) => find_record_with_key(output, k.as_str()),
        None => None,
    };
    match found {
        Some(index) => {
            let mut existing = output.remove(index);
            let ghost ev = record_view(existing);
            assert(ev == prev[index as int]);
            merge_record_mentions(&mut existing, record.mentions);
            merge_record_fields(&mut existing, record.fields);
            output.insert(index, existing);
            proof {
                assert(record_view(existing) =~= merged_into(ev, r));
                assert(record_views(output@) =~= prev.update(index as int, merged_into(prev[index as int], r)));
            }
        },
        None => {
            output.push(record);
            proof {
                assert(record_views(output@) =~= prev.push(r));
            }
        },
    }
}

/// The character records of a chapter from the
/// characters a cloud extraction reported: each kept under its cleaned name
/// (records with the same key merged), then weak records merged into the
/// records they are probably an alias of; what is set aside goes to
/// `suspect_items`.
pub fn build_character_records(
    chapter: &Chapter,
    characters: &Vec<CloudCharacter>,
    suspect_items: &mut Vec<SuspectItem>,
) -> (r: Vec<crate::records::StoryExtractionRecordPayload>)
    requires
        chapter.content@.len() < i64::MAX,
    ensures
        exists|built: Seq<Option<crate::records::StoryExtractionRecordPayload>>|
            #[trigger] character_records_from(
                chapter.content@,
                chapter.chapter_num as int,
                cloud_character_views(characters@),
                built,
                suspect_views(old(suspect_items)@),
                record_views(r@),
                suspect_views(final(suspect_items)@),
            ),
{
    let ghost content = chapter.content@;
    let ghost num = chapter.chapter_num as int;
    let ghost cs = cloud_character_views(characters@);
    let ghost sus0 = suspect_views(suspect_items@);
    let ghost mut built: Seq<Option<crate::records::StoryExtractionRecordPayload>> = seq![];
    let mut output: Vec<crate::records::StoryExtractionRecordPayload> = Vec::new();
    let mut i: usize = 0;
    proof {
        assert(cs.take(0) =~= Seq::<CloudCharacterView>::empty());
        assert(record_views(output@) =~= Seq::<RecordView>::empty());
        assert(sus0 + Seq::<SuspectView>::empty() =~= sus0);
    }
    while i < characters.len()
        invariant
            chapter.content@.len() < i64::MAX,
            content == chapter.content@,
            num == chapter.chapter_num as int,
            cs == cloud_character_views(characters@),
            0 <= i <= cs.len(),
            candidates_built(content, num, cs.take(i as int), built),
            record_views(output@) == keyed_records(built_views(built)),
            suspect_views(suspect_items@) == sus0 + all_candidate_suspects(content, num, cs.take(i as int)),
        decreases cs.len() - i,
    {
        let ghost sus_before = suspect_views(suspect_items@);
        let record = cloud_character_record(chapter, &characters[i], suspect_items);
        let ghost next = built.push(record);
        proof {
            assert(cs.take(i + 1).drop_last() =~= cs.take(i as int));
            assert(cs.take(i + 1).last() == cloud_character_view(characters@[i as int]));
            assert(next.drop_last() =~= built);
            assert(sus0 + all_candidate_suspects(content, num, cs.take(i + 1)) =~= sus_before + candidate_suspects(
                content,
                num,
                cs[i as int],
            ));
            assert forall|k: int| 0 <= k < i + 1 implies match #[trigger] next[k] {
                Some(r) => candidate_kept(cs.take(i + 1)[k]) && candidate_record_matches(r, content, num, cs.take(i + 1)[k]),
                None => !candidate_kept(cs.take(i + 1)[k]),
            } by {
                if k < i {
                    assert(next[k] == built[k]);
                    assert(cs.take(i + 1)[k] == cs.take(i as int)[k]);
                }
            }
        }
        let ghost kept_before = built_views(built);
        match record {
            Some(r) => {
                proof {
                    assert(built_views(next) == kept_before.push(record_view(r)));
                    assert(kept_before.push(record_view(r)).drop_last() =~= kept_before);
                }
                add_character_record(&mut output, r);
            },
            None => {
                proof {
                    assert(built_views(next) == kept_before);
                }
            },
        }
        proof {
            built = next;
        }
        i += 1;
    }
    let ghost keyed = record_views(output@);
    let ghost sus1 = suspect_views(suspect_items@);
    merge_probable_alias_character_records(&mut output, suspect_items);
    proof {
        assert(cs.take(i as int) =~= cs);
        assert(character_records_from(content, num, cs, built, sus0, record_views(output@), suspect_views(suspect_items@)));
    }
    output
}


// ------------------------------------------------------------------------
// One record per character.
// ------------------------------------------------------------------------
proof fn lemma_keyed_records_distinct(recs: Seq<RecordView>)
    ensures
        keys_distinct(keyed_records(recs)),
    decreases recs.len(),
{
    if recs.len() > 0 {
        let prev = keyed_records(recs.drop_last());
        lemma_keyed_records_distinct(recs.drop_last());
        let r = recs.last();
        match r.2 {
            Some(k) => {
                lemma_record_with_key_some(prev, k, 0);
                match record_with_key(prev, k, 0) {
                    Some(i) => {
                        let next = prev.update(i, merged_into(prev[i], r));
                        assert forall|x: int, y: int|
                            0 <= x < y < next.len() && (#[trigger] next[x]).2 is Some implies next[x].2 != (
                            #[trigger] next[y]).2 by {
                            assert(next[x].2 == prev[x].2);
                            assert(next[y].2 == prev[y].2);
                        }
                    },
                    None => {
                        lemma_record_with_key_none(prev, k, 0);
                        let next = prev.push(r);
                        assert forall|x: int, y: int|
                            0 <= x < y < next.len() && (#[trigger] next[x]).2 is Some implies next[x].2 != (
                            #[trigger] next[y]).2 by {
                            if y < prev.len() {
                                assert(next[x] == prev[x]);
                                assert(next[y] == prev[y]);
                            } else {
                                assert(prev[x].2 != Some(k));
                            }
                        }
                    },
                }
            },
            None => {
                let next = prev.push(r);
                assert forall|x: int, y: int|
                    0 <= x < y < next.len() && (#[trigger] next[x]).2 is Some implies next[x].2 != (
                    #[trigger] next[y]).2 by {
                    if y < prev.len() {
                        assert(next[x] == prev[x]);
                        assert(next[y] == prev[y]);
                    }
                }
            },
        }
    }
}

proof fn lemma_merge_keeps_distinct(recs: Seq<RecordView>, i: int, at: int)
    requires
        keys_distinct(recs),
        0 <= i < recs.len(),
        0 <= at < recs.len() - 1,
    ensures
        keys_distinct(recs.remove(i).update(at, merged_into(recs.remove(i)[at], recs[i]))),
{
    let rest = recs.remove(i);
    let next = rest.update(at, merged_into(rest[at], recs[i]));
    assert forall|x: int, y: int|
        0 <= x < y < next.len() && (#[trigger] next[x]).2 is Some implies next[x].2 != (#[trigger] next[y]).2 by {
        let ox = if x < i {
            x
        } else {
            x + 1
        };
        let oy = if y < i {
            y
        } else {
            y + 1
        };
        assert(next[x].2 == recs[ox].2);
        assert(next[y].2 == recs[oy].2);
    }
}

#[verifier::spinoff_prover]
#[verifier::rlimit(40)]
proof fn lemma_probable_merges_distinct(recs: Seq<RecordView>, i: int, sus: Seq<SuspectView>)
    requires
        0 <= i,
        keys_distinct(recs),
    ensures
        keys_distinct(probable_merges(recs, i, sus).0),
    decreases recs.len() - i,
{
    if i < recs.len() {
        if !view_low_signal(recs[i]) {
            lemma_probable_merges_distinct(recs, i + 1, sus);
        } else {
            match view_merge_target(recs, i) {
                None => lemma_probable_merges_distinct(recs, i + 1, sus),
                Some((t, kind)) => {
                    let rest = recs.remove(i);
                    let at = if t > i {
                        t - 1
                    } else {
                        t
                    };
                    if 0 <= at < rest.len() {
                        lemma_merge_keeps_distinct(recs, i, at);
                        lemma_probable_merges_distinct(
                            rest.update(at, merged_into(rest[at], recs[i])),
                            i,
                            sus.push(merge_suspect(recs[i], recs[t], kind)),
                        );
                    }
                },
            }
        }
    }
}

/// The characters give one record per entity key: records of the same key
/// are merged, and merging weak records into others keeps the keys apart.
pub proof fn lemma_one_record_per_character(
    built: Seq<Option<crate::records::StoryExtractionRecordPayload>>,
    sus: Seq<SuspectView>,
)
    ensures
        keys_distinct(probable_merges(keyed_records(built_views(built)), 0, sus).0),
{
    lemma_keyed_records_distinct(built_views(built));
    lemma_probable_merges_distinct(keyed_records(built_views(built)), 0, sus);
}

} // verus!
