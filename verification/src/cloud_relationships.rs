//! Relationship records from a cloud extraction: each relationship the model
//! reported is resolved to two of the chapter's characters, grounded in the
//! chapter by its quotes, and kept once per pair of characters.
use vstd::prelude::*;
use crate::characters::{identity_surface_items, surfaces_scan, CharacterAlias, CharacterIdentity};
use crate::cloud_records::{
    build_surface_map, map_quotes_to_evidence, map_view, quotes_scan, resolve_surface_to_identity,
    resolved_surface, surface_entry, surface_map, surface_step, surfaces_step,
};
use crate::documents::{record_view, record_views, FieldView, RecordView};
use crate::domain::{clone_evidence, Chapter, StoryEvidenceSpan};
use crate::keys::{normalize_ascii_snake_key, normalized_text_key, snake_key, text_key};
use crate::records::{
    alias_texts_from_payload_record, cloud_key, merge_relationship_field_values, merge_values_view,
    normalize_cloud_schema_key, record_alias_texts, value_view, value_views, StoryExtractionFieldPayload,
    StoryExtractionFieldValuePayload, StoryExtractionRecordPayload, ValueView,
};
use crate::relationship_pass::{
    relationship_scope_is_persistable, scope_persistable, span_views, FIELD_LABEL_RELATIONSHIP,
    GROUP_LABEL_RELATIONSHIP,
};
use crate::relationships::{
    FIELD_KEY_RELATIONSHIP, GROUP_KEY_RELATIONSHIP, RELATIONSHIP_DIRECTION_RELATED_TO_SELF,
    RELATIONSHIP_DIRECTION_SELF_TO_RELATED,
};
use crate::surfaces::clean_surface;
use crate::text::{
    lemma_less_asym, lemma_less_total, owned, push_str, seq_less, str_eq, str_less, trim, trim_str,
};

verus! {

/// The reason given to the evidence of a cloud relationship.
pub const EVIDENCE_REASON_CLOUD_RELATIONSHIP: &'static str = "cloud_relationship";

/// A relationship a cloud extraction reported. Its confidence is the
/// caller's: relationships under the threshold are not handed in.
#[derive(Debug, Clone)]
pub struct CloudRelationship {
    pub source_name: String,
    pub target_name: String,
    pub relationship_scope: String,
    pub relationship_type: String,
    pub source_to_target_label: String,
    pub target_to_source_label: String,
    pub evidence_quotes: Vec<String>,
}

/// Something set aside for review: why, what it named, and the quotes it
/// came with when those matter.
#[derive(Debug, Clone)]
pub struct SuspectItem {
    pub reason: String,
    pub details: Vec<(String, String)>,
    pub evidence_quotes: Vec<String>,
}

/// A relationship as the specifications see it: source, target, scope, type,
/// the label each way, the quotes.
pub type RelView = (Seq<char>, Seq<char>, Seq<char>, Seq<char>, Seq<char>, Seq<char>, Seq<Seq<char>>);

pub open spec fn rel_view(r: CloudRelationship) -> RelView {
    (
        r.source_name@,
        r.target_name@,
        r.relationship_scope@,
        r.relationship_type@,
        r.source_to_target_label@,
        r.target_to_source_label@,
        r.evidence_quotes@.map_values(|q: String| q@),
    )
}

pub open spec fn rel_views(rs: Seq<CloudRelationship>) -> Seq<RelView> {
    rs.map_values(|r: CloudRelationship| rel_view(r))
}

/// A suspect item as the specifications see it: reason, details, quotes.
pub type SuspectView = (Seq<char>, Seq<(Seq<char>, Seq<char>)>, Seq<Seq<char>>);

pub open spec fn suspect_view(s: SuspectItem) -> SuspectView {
    (
        s.reason@,
        s.details@.map_values(|d: (String, String)| (d.0@, d.1@)),
        s.evidence_quotes@.map_values(|q: String| q@),
    )
}

pub open spec fn suspect_views(s: Seq<SuspectItem>) -> Seq<SuspectView> {
    s.map_values(|x: SuspectItem| suspect_view(x))
}

// ------------------------------------------------------------------------
// The characters a name resolves to.
// ------------------------------------------------------------------------
/// The surfaces of a character record: its name, then its aliases.
pub open spec fn record_surface_items(r: StoryExtractionRecordPayload) -> Seq<(Seq<char>, Seq<char>)> {
    seq![(clean_surface(r.display_name@), "name"@)] + record_alias_texts(r.fields@).map_values(
        |t: Seq<char>| (clean_surface(t), "alias"@),
    )
}

/// The surface keys of the character records, each pointing to the one
/// record that has it, or to none when several do.
pub open spec fn records_surface_map(rs: Seq<StoryExtractionRecordPayload>) -> Seq<(Seq<char>, Option<int>)>
    decreases rs.len(),
{
    if rs.len() == 0 {
        seq![]
    } else {
        surfaces_step(
            records_surface_map(rs.drop_last()),
            surfaces_scan(record_surface_items(rs.last())).0,
            rs.len() - 1,
        )
    }
}

/// Every entry of the map points below `n`.
pub open spec fn map_bounded(map: Seq<(Seq<char>, Option<int>)>, n: int) -> bool {
    forall|e: int| 0 <= e < map.len() ==> ((#[trigger] map[e]).1 matches Some(i) ==> 0 <= i < n)
}

proof fn lemma_records_surface_map(ids: Seq<CharacterIdentity>, rs: Seq<StoryExtractionRecordPayload>)
    requires
        ids.len() == rs.len(),
        forall|i: int| 0 <= i < ids.len() ==> identity_surface_items(#[trigger] ids[i]) == record_surface_items(rs[i]),
    ensures
        surface_map(ids) == records_surface_map(rs),
    decreases ids.len(),
{
    if ids.len() > 0 {
        lemma_records_surface_map(ids.drop_last(), rs.drop_last());
        assert(identity_surface_items(ids[ids.len() - 1]) == record_surface_items(rs[rs.len() - 1]));
    }
}

proof fn lemma_surface_entry_bound(map: Seq<(Seq<char>, Option<int>)>, key: Seq<char>, i: int)
    ensures
        surface_entry(map, key, i) matches Some(e) ==> 0 <= e < map.len(),
    decreases map.len() - i,
{
    if 0 <= i < map.len() && map[i].0 != key {
        lemma_surface_entry_bound(map, key, i + 1);
    }
}

proof fn lemma_surfaces_step_bounded(
    map: Seq<(Seq<char>, Option<int>)>,
    surfaces: Seq<(Seq<char>, Seq<char>)>,
    index: int,
    n: int,
)
    requires
        map_bounded(map, n),
        0 <= index < n,
    ensures
        map_bounded(surfaces_step(map, surfaces, index), n),
    decreases surfaces.len(),
{
    if surfaces.len() > 0 {
        let prev = surfaces_step(map, surfaces.drop_last(), index);
        lemma_surfaces_step_bounded(map, surfaces.drop_last(), index, n);
        let key = text_key(surfaces.last().0, false);
        lemma_surface_entry_bound(prev, key, 0);
        let next = surface_step(prev, key, index);
        assert forall|e: int| 0 <= e < next.len() implies ((#[trigger] next[e]).1 matches Some(i) ==> 0 <= i < n) by {
            if e < prev.len() {
                assert(prev[e].1 matches Some(i) ==> 0 <= i < n);
            }
        }
    }
}

proof fn lemma_records_surface_map_bounded(rs: Seq<StoryExtractionRecordPayload>)
    ensures
        map_bounded(records_surface_map(rs), rs.len() as int),
    decreases rs.len(),
{
    if rs.len() > 0 {
        lemma_records_surface_map_bounded(rs.drop_last());
        lemma_surfaces_step_bounded(
            records_surface_map(rs.drop_last()),
            surfaces_scan(record_surface_items(rs.last())).0,
            rs.len() - 1,
            rs.len() as int,
        );
    }
}

proof fn lemma_resolved_bound(rs: Seq<StoryExtractionRecordPayload>, surface: Seq<char>)
    ensures
        resolved_surface(records_surface_map(rs), surface) matches Some(i) ==> 0 <= i < rs.len(),
{
    let map = records_surface_map(rs);
    lemma_records_surface_map_bounded(rs);
    lemma_surface_entry_bound(map, text_key(surface, false), 0);
    match surface_entry(map, text_key(surface, false), 0) {
        Some(e) => {
            assert(map[e].1 matches Some(i) ==> 0 <= i < rs.len());
        },
        None => {},
    }
}

// ------------------------------------------------------------------------
// What becomes of one relationship.
// ------------------------------------------------------------------------
/// The record the source name resolves to, and the one the target name does.
pub open spec fn rel_source(rs: Seq<StoryExtractionRecordPayload>, rel: RelView) -> Option<int> {
    resolved_surface(records_surface_map(rs), rel.0)
}

pub open spec fn rel_target(rs: Seq<StoryExtractionRecordPayload>, rel: RelView) -> Option<int> {
    resolved_surface(records_surface_map(rs), rel.1)
}

/// The spans the quotes of a relationship give in the chapter.
pub open spec fn rel_evidence(content: Seq<char>, chapter_num: int, rel: RelView) -> Seq<crate::relationship_pass::SpanView> {
    quotes_scan(content, chapter_num, rel.6, EVIDENCE_REASON_CLOUD_RELATIONSHIP@).0
}

/// The relationship names two different characters, with a label each way
/// and a type.
pub open spec fn rel_complete(rs: Seq<StoryExtractionRecordPayload>, rel: RelView) -> bool {
    &&& rel_source(rs, rel) is Some
    &&& rel_target(rs, rel) is Some
    &&& rel_source(rs, rel) != rel_target(rs, rel)
    &&& trim(rel.4).len() > 0
    &&& trim(rel.5).len() > 0
    &&& cloud_key(rel.3).len() > 0
}

/// Why a relationship is set aside for review, if it is: a scope that is not
/// kept, a name that resolves to no single character, or no quote found in
/// the chapter.
pub open spec fn rel_suspect(
    rs: Seq<StoryExtractionRecordPayload>,
    content: Seq<char>,
    chapter_num: int,
    rel: RelView,
) -> Option<SuspectView> {
    let scope = cloud_key(rel.2);
    if !scope_persistable(snake_key(scope)) {
        Some(
            (
                "relationship_scope_not_persistable"@,
                seq![("source_name"@, rel.0), ("target_name"@, rel.1), ("relationship_scope"@, scope)],
                seq![],
            ),
        )
    } else if rel_source(rs, rel) is None {
        Some(("relationship_source_not_resolved_unique"@, seq![("source_name"@, rel.0)], seq![]))
    } else if rel_target(rs, rel) is None {
        Some(("relationship_target_not_resolved_unique"@, seq![("target_name"@, rel.1)], seq![]))
    } else if rel_complete(rs, rel) && rel_evidence(content, chapter_num, rel).len() == 0 {
        Some(
            (
                "relationship_evidence_not_found_in_chapter"@,
                seq![
                    ("source_name"@, rs[rel_source(rs, rel)->0].display_name@),
                    ("target_name"@, rs[rel_target(rs, rel)->0].display_name@),
                    ("relationship_type"@, cloud_key(rel.3)),
                ],
                seq![],
            ),
        )
    } else {
        None
    }
}

/// The pair a relationship is kept as: the two characters in key order, the
/// label read from each towards the other, and the type.
pub open spec fn rel_pair(
    rs: Seq<StoryExtractionRecordPayload>,
    content: Seq<char>,
    chapter_num: int,
    rel: RelView,
) -> Option<(int, int, Seq<char>, Seq<char>, Seq<char>)> {
    if !scope_persistable(snake_key(cloud_key(rel.2))) || !rel_complete(rs, rel) || rel_evidence(
        content,
        chapter_num,
        rel,
    ).len() == 0 {
        None
    } else {
        let s = rel_source(rs, rel)->0;
        let t = rel_target(rs, rel)->0;
        if !seq_less(text_key(rs[t].display_name@, false), text_key(rs[s].display_name@, false)) {
            Some((s, t, trim(rel.4), trim(rel.5), cloud_key(rel.3)))
        } else {
            Some((t, s, trim(rel.5), trim(rel.4), cloud_key(rel.3)))
        }
    }
}

/// The entity key of the record of a pair.
pub open spec fn pair_key(first: Seq<char>, second: Seq<char>) -> Seq<char> {
    "relationship|"@ + snake_key(first) + "|"@ + snake_key(second)
}

/// The two values of a pair: the first's label towards the second, and the
/// second's towards the first.
pub open spec fn pair_values(
    first: Seq<char>,
    second: Seq<char>,
    first_label: Seq<char>,
    second_label: Seq<char>,
    kind: Seq<char>,
    evidence: Seq<StoryEvidenceSpan>,
) -> Seq<ValueView> {
    seq![
        (first_label, Some(second), Some(kind), Some(first_label), Some(RELATIONSHIP_DIRECTION_SELF_TO_RELATED@), evidence),
        (second_label, Some(first), Some(kind), Some(second_label), Some(RELATIONSHIP_DIRECTION_RELATED_TO_SELF@), evidence),
    ]
}

/// The record of a new pair.
pub open spec fn pair_record(first: Seq<char>, second: Seq<char>, values: Seq<ValueView>) -> RecordView {
    (
        GROUP_KEY_RELATIONSHIP@,
        GROUP_LABEL_RELATIONSHIP@,
        Some(pair_key(first, second)),
        first + " \u{2194} "@ + second,
        seq![],
        seq![(FIELD_KEY_RELATIONSHIP@, FIELD_LABEL_RELATIONSHIP@, values)],
    )
}

/// The first record from `i` on with the entity key `key`.
pub open spec fn record_with_key(recs: Seq<RecordView>, key: Seq<char>, i: int) -> Option<int>
    decreases recs.len() - i,
{
    if i < 0 || i >= recs.len() {
        None
    } else if recs[i].2 == Some(key) {
        Some(i)
    } else {
        record_with_key(recs, key, i + 1)
    }
}

/// A record with the values of its first field replaced.
pub open spec fn with_first_values(r: RecordView, values: Seq<ValueView>) -> RecordView {
    (r.0, r.1, r.2, r.3, r.4, r.5.update(0, (r.5[0].0, r.5[0].1, values)))
}

/// One relationship taken in: set aside, skipped, merged into the record of
/// its pair, or kept as a new record.
pub open spec fn relationship_step(
    rs: Seq<StoryExtractionRecordPayload>,
    content: Seq<char>,
    chapter_num: int,
    rel: RelView,
    evidence: Seq<StoryEvidenceSpan>,
    state: (Seq<RecordView>, Seq<SuspectView>),
) -> (Seq<RecordView>, Seq<SuspectView>) {
    let (recs, sus) = state;
    match rel_suspect(rs, content, chapter_num, rel) {
        Some(s) => (recs, sus.push(s)),
        None => match rel_pair(rs, content, chapter_num, rel) {
            None => (recs, sus),
            Some((a, b, la, lb, kind)) => {
                let first = rs[a].display_name@;
                let second = rs[b].display_name@;
                let values = pair_values(first, second, la, lb, kind, evidence);
                match record_with_key(recs, pair_key(first, second), 0) {
                    Some(i) => (
                        recs.update(i, with_first_values(recs[i], merge_values_view(recs[i].5[0].2, values).0)),
                        sus,
                    ),
                    None => (recs.push(pair_record(first, second, values)), sus),
                }
            },
        },
    }
}

/// The relationships taken in turn; `evidence[i]` is what the quotes of the
/// `i`-th gave.
pub open spec fn relationship_records(
    rs: Seq<StoryExtractionRecordPayload>,
    content: Seq<char>,
    chapter_num: int,
    rels: Seq<RelView>,
    evidence: Seq<Seq<StoryEvidenceSpan>>,
) -> (Seq<RecordView>, Seq<SuspectView>)
    decreases rels.len(),
{
    if rels.len() == 0 {
        (seq![], seq![])
    } else {
        relationship_step(
            rs,
            content,
            chapter_num,
            rels.last(),
            evidence[rels.len() - 1],
            relationship_records(rs, content, chapter_num, rels.drop_last(), evidence),
        )
    }
}

proof fn lemma_records_prefix(
    rs: Seq<StoryExtractionRecordPayload>,
    content: Seq<char>,
    chapter_num: int,
    rels: Seq<RelView>,
    evidence: Seq<Seq<StoryEvidenceSpan>>,
    more: Seq<Seq<StoryEvidenceSpan>>,
)
    requires
        rels.len() <= evidence.len(),
        rels.len() <= more.len(),
        forall|i: int| 0 <= i < rels.len() ==> evidence[i] == more[i],
    ensures
        relationship_records(rs, content, chapter_num, rels, evidence) == relationship_records(
            rs,
            content,
            chapter_num,
            rels,
            more,
        ),
    decreases rels.len(),
{
    if rels.len() > 0 {
        lemma_records_prefix(rs, content, chapter_num, rels.drop_last(), evidence, more);
    }
}


// ------------------------------------------------------------------------
// Building the records.
// ------------------------------------------------------------------------
/// The character of a record as names are resolved here: its name and the
/// texts of its aliases (nothing else of an alias is read).
fn record_identity(record: &StoryExtractionRecordPayload) -> (r: CharacterIdentity)
    ensures
        r.name@ == record.display_name@,
        identity_surface_items(r) == record_surface_items(*record),
{
    let texts = alias_texts_from_payload_record(record);
    let ghost tv = texts@.map_values(|t: String| t@);
    let mut aliases: Vec<CharacterAlias> = Vec::new();
    let mut i: usize = 0;
    while i < texts.len()
        invariant
            tv == texts@.map_values(|t: String| t@),
            0 <= i <= texts@.len(),
            aliases@.len() == i,
            forall|k: int| 0 <= k < i ==> (#[trigger] aliases@[k]).text@ == tv[k],
        decreases texts@.len() - i,
    {
        let text = texts[i].clone();
        aliases.push(
            CharacterAlias {
                text,
                alias_type: String::new(),
                alias_label: String::new(),
                is_primary: false,
                evidence: Vec::new(),
            },
        );
        i += 1;
    }
    let r = CharacterIdentity { name: record.display_name.clone(), aliases };
    proof {
        assert(r.aliases@.map_values(|a: CharacterAlias| (clean_surface(a.text@), "alias"@)) =~= record_alias_texts(
            record.fields@,
        ).map_values(|t: Seq<char>| (clean_surface(t), "alias"@)));
        assert(identity_surface_items(r) =~= record_surface_items(*record));
    }
    r
}

pub(crate) fn suspect(reason: &str, details: Vec<(String, String)>) -> (r: SuspectItem)
    ensures
        r.reason@ == reason@,
        r.details == details,
        r.evidence_quotes@.len() == 0,
{
    SuspectItem { reason: owned(reason), details, evidence_quotes: Vec::new() }
}

pub(crate) fn detail(key: &str, value: &str) -> (r: (String, String))
    ensures
        r.0@ == key@,
        r.1@ == value@,
{
    (owned(key), owned(value))
}

/// The first record of `output` with the entity key `key`.
pub(crate) fn find_record_with_key(output: &Vec<StoryExtractionRecordPayload>, key: &str) -> (r: Option<usize>)
    ensures
        match r {
            Some(i) => record_with_key(record_views(output@), key@, 0) == Some(i as int) && i < output@.len(),
            None => record_with_key(record_views(output@), key@, 0) is None,
        },
{
    let ghost views = record_views(output@);
    let mut i: usize = 0;
    while i < output.len()
        invariant
            views == record_views(output@),
            0 <= i <= output@.len(),
            record_with_key(views, key@, 0) == record_with_key(views, key@, i as int),
        decreases output@.len() - i,
    {
        assert(views[i as int].2 == crate::text::opt_view(output@[i as int].entity_key));
        let found = match &output[i].entity_key {
            Some(k) => str_eq(k.as_str(), key),
            None => false,
        };
        if found {
            return Some(i);
        }
        i += 1;
    }
    None
}

/// Every record has exactly one field.
pub open spec fn one_field_each(output: Seq<StoryExtractionRecordPayload>) -> bool {
    forall|k: int| 0 <= k < output.len() ==> (#[trigger] output[k]).fields@.len() == 1
}

/// Takes in one relationship; returns the evidence its quotes gave (empty
/// when they were not looked for).
#[verifier::rlimit(40)]
fn add_cloud_relationship(
    chapter: &Chapter,
    records: &Vec<StoryExtractionRecordPayload>,
    identities: &Vec<CharacterIdentity>,
    surface_map: &Vec<(String, Option<usize>)>,
    relationship: &CloudRelationship,
    output: &mut Vec<StoryExtractionRecordPayload>,
    suspect_items: &mut Vec<SuspectItem>,
) -> (evidence: Ghost<Seq<StoryEvidenceSpan>>)
    requires
        chapter.content@.len() < i64::MAX,
        identities@.len() == records@.len(),
        forall|k: int| 0 <= k < identities@.len() ==> (#[trigger] identities@[k]).name@ == records@[k].display_name@,
        map_view(surface_map@) == records_surface_map(records@),
        one_field_each(old(output)@),
    ensures
        one_field_each(final(output)@),
        rel_pair(records@, chapter.content@, chapter.chapter_num as int, rel_view(*relationship)) is Some ==> span_views(
            evidence@,
        ) == rel_evidence(chapter.content@, chapter.chapter_num as int, rel_view(*relationship)),
        (record_views(final(output)@), suspect_views(final(suspect_items)@)) == relationship_step(
            records@,
            chapter.content@,
            chapter.chapter_num as int,
            rel_view(*relationship),
            evidence@,
            (record_views(old(output)@), suspect_views(old(suspect_items)@)),
        ),
{
    let ghost rs = records@;
    let ghost rel = rel_view(*relationship);
    let ghost content = chapter.content@;
    let ghost num = chapter.chapter_num as int;
    let ghost sus0 = suspect_views(suspect_items@);
    let no_evidence: Ghost<Seq<StoryEvidenceSpan>> = Ghost(Seq::empty());
    let scope = normalize_cloud_schema_key(relationship.relationship_scope.as_str());
    if !relationship_scope_is_persistable(scope.as_str()) {
        let details = vec![
            detail("source_name", relationship.source_name.as_str()),
            detail("target_name", relationship.target_name.as_str()),
            detail("relationship_scope", scope.as_str()),
        ];
        let item = suspect("relationship_scope_not_persistable", details);
        suspect_items.push(item);
        proof {
            assert(suspect_view(item).1 =~= seq![("source_name"@, rel.0), ("target_name"@, rel.1), ("relationship_scope"@, cloud_key(rel.2))]);
            assert(suspect_view(item).2 =~= Seq::<Seq<char>>::empty());
            assert(suspect_views(suspect_items@) =~= sus0.push(suspect_view(item)));
        }
        return no_evidence;
    }
    proof {
        lemma_resolved_bound(rs, rel.0);
        lemma_resolved_bound(rs, rel.1);
    }
    let source_index = match resolve_surface_to_identity(surface_map, relationship.source_name.as_str()) {
        Some(i) => i,
        None => {
            let details = vec![detail("source_name", relationship.source_name.as_str())];
            let item = suspect("relationship_source_not_resolved_unique", details);
            suspect_items.push(item);
            proof {
                assert(suspect_view(item).1 =~= seq![("source_name"@, rel.0)]);
                assert(suspect_view(item).2 =~= Seq::<Seq<char>>::empty());
            assert(suspect_views(suspect_items@) =~= sus0.push(suspect_view(item)));
            }
            return no_evidence;
        },
    };
    let target_index = match resolve_surface_to_identity(surface_map, relationship.target_name.as_str()) {
        Some(i) => i,
        None => {
            let details = vec![detail("target_name", relationship.target_name.as_str())];
            let item = suspect("relationship_target_not_resolved_unique", details);
            suspect_items.push(item);
            proof {
                assert(suspect_view(item).1 =~= seq![("target_name"@, rel.1)]);
                assert(suspect_view(item).2 =~= Seq::<Seq<char>>::empty());
            assert(suspect_views(suspect_items@) =~= sus0.push(suspect_view(item)));
            }
            return no_evidence;
        },
    };
    if source_index == target_index {
        return no_evidence;
    }
    let source = &identities[source_index];
    let target = &identities[target_index];
    let source_label = trim_str(relationship.source_to_target_label.as_str());
    let target_label = trim_str(relationship.target_to_source_label.as_str());
    if source_label.as_str().is_empty() || target_label.as_str().is_empty() {
        return no_evidence;
    }
    let relationship_type = normalize_cloud_schema_key(relationship.relationship_type.as_str());
    if relationship_type.as_str().is_empty() {
        return no_evidence;
    }
    let evidence = map_quotes_to_evidence(chapter, &relationship.evidence_quotes, EVIDENCE_REASON_CLOUD_RELATIONSHIP);
    if evidence.len() == 0 {
        let details = vec![
            detail("source_name", source.name.as_str()),
            detail("target_name", target.name.as_str()),
            detail("relationship_type", relationship_type.as_str()),
        ];
        let item = suspect("relationship_evidence_not_found_in_chapter", details);
        suspect_items.push(item);
        proof {
            assert(suspect_view(item).1 =~= seq![
                ("source_name"@, rs[source_index as int].display_name@),
                ("target_name"@, rs[target_index as int].display_name@),
                ("relationship_type"@, cloud_key(rel.3)),
            ]);
            assert(suspect_view(item).2 =~= Seq::<Seq<char>>::empty());
            assert(suspect_views(suspect_items@) =~= sus0.push(suspect_view(item)));
        }
        return no_evidence;
    }
    let source_key = normalized_text_key(source.name.as_str());
    let target_key = normalized_text_key(target.name.as_str());
    let in_order = !str_less(target_key.as_str(), source_key.as_str());
    let (first, second, first_label, second_label) = if in_order {
        (source, target, source_label, target_label)
    } else {
        (target, source, target_label, source_label)
    };
    let mut key = owned("relationship|");
    push_str(&mut key, normalize_ascii_snake_key(first.name.as_str()).as_str());
    push_str(&mut key, "|");
    push_str(&mut key, normalize_ascii_snake_key(second.name.as_str()).as_str());
    let ghost ev = evidence@;
    let first_value = StoryExtractionFieldValuePayload {
        value: first_label.clone(),
        related_character: Some(second.name.clone()),
        relationship_type: Some(relationship_type.clone()),
        relationship_label: Some(first_label),
        relationship_direction: Some(owned(RELATIONSHIP_DIRECTION_SELF_TO_RELATED)),
        evidence: clone_evidence(&evidence),
    };
    let second_value = StoryExtractionFieldValuePayload {
        value: second_label.clone(),
        related_character: Some(first.name.clone()),
        relationship_type: Some(relationship_type),
        relationship_label: Some(second_label),
        relationship_direction: Some(owned(RELATIONSHIP_DIRECTION_RELATED_TO_SELF)),
        evidence,
    };
    let values = vec![first_value, second_value];
    let ghost first_name = first.name@;
    let ghost second_name = second.name@;
    let ghost pv = pair_values(
        first_name,
        second_name,
        first_label@,
        second_label@,
        relationship_type@,
        ev,
    );
    proof {
        assert(value_views(values@) =~= pv);
        assert(key@ =~= pair_key(first_name, second_name));
    }
    let ghost before = record_views(output@);
    match find_record_with_key(output, key.as_str()) {
        Some(index) => {
            let mut record = output.remove(index);
            let ghost rv = record_view(record);
            assert(rv == before[index as int]);
            let mut field = record.fields.remove(0);
            let ghost fv = value_views(field.values@);
            merge_relationship_field_values(&mut field, values);
            record.fields.insert(0, field);
            output.insert(index, record);
            proof {
                assert(record_view(record) =~= with_first_values(rv, merge_values_view(fv, pv).0));
                assert(record_views(output@) =~= before.update(index as int, record_view(record)));
                assert forall|k: int| 0 <= k < output@.len() implies (#[trigger] output@[k]).fields@.len() == 1 by {
                    if k != index as int {
                        assert(output@[k] == old(output)@[k]);
                    }
                }
            }
        },
        None => {
            let mut display_name = first.name.clone();
            push_str(&mut display_name, " \u{2194} ");
            push_str(&mut display_name, second.name.as_str());
            let field = StoryExtractionFieldPayload {
                field_key: owned(FIELD_KEY_RELATIONSHIP),
                field_label: owned(FIELD_LABEL_RELATIONSHIP),
                values,
            };
            let record = StoryExtractionRecordPayload {
                group_key: owned(GROUP_KEY_RELATIONSHIP),
                group_label: owned(GROUP_LABEL_RELATIONSHIP),
                entity_key: Some(key),
                display_name,
                mentions: Vec::new(),
                fields: vec![field],
            };
            output.push(record);
            proof {
                assert(record_view(record) =~= pair_record(first_name, second_name, pv));
                assert(record_views(output@) =~= before.push(record_view(record)));
            }
        },
    }
    let found: Ghost<Seq<StoryEvidenceSpan>> = Ghost(ev);
    found
}

/// `recs` and `sus` are what the relationships give, after the suspect items
/// `sus_before`, where `evidence[i]` is what the quotes of the `i`-th gave
/// whenever it is kept as a pair.
pub open spec fn built_from(
    rs: Seq<StoryExtractionRecordPayload>,
    content: Seq<char>,
    chapter_num: int,
    rels: Seq<RelView>,
    evidence: Seq<Seq<StoryEvidenceSpan>>,
    sus_before: Seq<SuspectView>,
    recs: Seq<RecordView>,
    sus: Seq<SuspectView>,
) -> bool {
    let built = relationship_records(rs, content, chapter_num, rels, evidence);
    &&& evidence.len() == rels.len()
    &&& forall|i: int|
        0 <= i < rels.len() && rel_pair(rs, content, chapter_num, rels[i]) is Some ==> span_views(
            #[trigger] evidence[i],
        ) == rel_evidence(content, chapter_num, rels[i])
    &&& recs == built.0
    &&& sus == sus_before + built.1
}

/// The relationship records of a chapter from
/// the relationships a cloud extraction reported, resolved against the
/// chapter's character records; what cannot be kept for a reason worth
/// reviewing goes to `suspect_items`.
pub fn build_relationship_records(
    chapter: &Chapter,
    character_records: &Vec<StoryExtractionRecordPayload>,
    relationships: &Vec<CloudRelationship>,
    suspect_items: &mut Vec<SuspectItem>,
) -> (r: Vec<StoryExtractionRecordPayload>)
    requires
        chapter.content@.len() < i64::MAX,
    ensures
        exists|evidence: Seq<Seq<StoryEvidenceSpan>>|
            #[trigger] built_from(
                character_records@,
                chapter.content@,
                chapter.chapter_num as int,
                rel_views(relationships@),
                evidence,
                suspect_views(old(suspect_items)@),
                record_views(r@),
                suspect_views(final(suspect_items)@),
            ),
{
    let ghost rs = character_records@;
    let ghost rvs = rel_views(relationships@);
    let ghost content = chapter.content@;
    let ghost num = chapter.chapter_num as int;
    let ghost sus0 = suspect_views(suspect_items@);
    let mut identities: Vec<CharacterIdentity> = Vec::new();
    let mut i: usize = 0;
    while i < character_records.len()
        invariant
            rs == character_records@,
            0 <= i <= rs.len(),
            identities@.len() == i,
            forall|k: int|
                0 <= k < i ==> (#[trigger] identities@[k]).name@ == rs[k].display_name@ && identity_surface_items(
                    identities@[k],
                ) == record_surface_items(rs[k]),
        decreases rs.len() - i,
    {
        identities.push(record_identity(&character_records[i]));
        i += 1;
    }
    let surface_map = build_surface_map(&identities);
    proof {
        lemma_records_surface_map(identities@, rs);
    }
    let mut output: Vec<StoryExtractionRecordPayload> = Vec::new();
    let ghost mut evidence: Seq<Seq<StoryEvidenceSpan>> = seq![];
    let mut j: usize = 0;
    proof {
        assert(rvs.take(0) =~= Seq::<RelView>::empty());
        assert(record_views(output@) =~= Seq::<RecordView>::empty());
        assert(suspect_views(suspect_items@) =~= sus0 + Seq::<SuspectView>::empty());
    }
    while j < relationships.len()
        invariant
            chapter.content@.len() < i64::MAX,
            rs == character_records@,
            rvs == rel_views(relationships@),
            content == chapter.content@,
            num == chapter.chapter_num as int,
            identities@.len() == rs.len(),
            forall|k: int| 0 <= k < identities@.len() ==> (#[trigger] identities@[k]).name@ == rs[k].display_name@,
            map_view(surface_map@) == records_surface_map(rs),
            one_field_each(output@),
            0 <= j <= relationships@.len(),
            evidence.len() == j,
            forall|k: int|
                0 <= k < j && rel_pair(rs, content, num, rvs[k]) is Some ==> span_views(#[trigger] evidence[k])
                    == rel_evidence(content, num, rvs[k]),
            (record_views(output@), suspect_views(suspect_items@)) == {
                let built = relationship_records(rs, content, num, rvs.take(j as int), evidence);
                (built.0, sus0 + built.1)
            },
        decreases relationships@.len() - j,
    {
        let ghost state = relationship_records(rs, content, num, rvs.take(j as int), evidence);
        let ghost before = suspect_views(suspect_items@);
        let ev = add_cloud_relationship(
            chapter,
            character_records,
            &identities,
            &surface_map,
            &relationships[j],
            &mut output,
            suspect_items,
        );
        proof {
            let next = evidence.push(ev@);
            assert(rvs[j as int] == rel_view(relationships@[j as int]));
            assert(rvs.take(j + 1).drop_last() =~= rvs.take(j as int));
            lemma_records_prefix(rs, content, num, rvs.take(j as int), evidence, next);
            let stepped = relationship_step(rs, content, num, rvs[j as int], ev@, (state.0, state.1));
            assert(relationship_records(rs, content, num, rvs.take(j + 1), next) == stepped);
            let local = relationship_step(rs, content, num, rvs[j as int], ev@, (state.0, Seq::<SuspectView>::empty()));
            assert(stepped.0 == local.0);
            assert(suspect_views(suspect_items@) =~= sus0 + stepped.1);
            evidence = next;
        }
        j += 1;
    }
    proof {
        assert(rvs.take(j as int) =~= rvs);
        assert(built_from(rs, content, num, rvs, evidence, sus0, record_views(output@), suspect_views(suspect_items@)));
    }
    output
}


// ------------------------------------------------------------------------
// One record per pair.
// ------------------------------------------------------------------------
/// No two records share an entity key they have.
pub open spec fn keys_distinct(recs: Seq<RecordView>) -> bool {
    forall|a: int, b: int| 0 <= a < b < recs.len() && (#[trigger] recs[a]).2 is Some ==> recs[a].2 != (#[trigger] recs[b]).2
}

pub proof fn lemma_record_with_key_none(recs: Seq<RecordView>, key: Seq<char>, i: int)
    requires
        0 <= i,
        record_with_key(recs, key, i) is None,
    ensures
        forall|j: int| i <= j < recs.len() ==> (#[trigger] recs[j]).2 != Some(key),
    decreases recs.len() - i,
{
    if i < recs.len() {
        lemma_record_with_key_none(recs, key, i + 1);
    }
}

pub proof fn lemma_record_with_key_some(recs: Seq<RecordView>, key: Seq<char>, i: int)
    requires
        0 <= i,
    ensures
        record_with_key(recs, key, i) matches Some(k) ==> i <= k < recs.len() && recs[k].2 == Some(key),
    decreases recs.len() - i,
{
    if i < recs.len() && recs[i].2 != Some(key) {
        lemma_record_with_key_some(recs, key, i + 1);
    }
}

/// The relationships give one record per pair of characters: every record
/// has its pair's entity key, no two records share one, and each holds just
/// the relationship field.
pub proof fn lemma_one_record_per_pair(
    rs: Seq<StoryExtractionRecordPayload>,
    content: Seq<char>,
    chapter_num: int,
    rels: Seq<RelView>,
    evidence: Seq<Seq<StoryEvidenceSpan>>,
)
    requires
        rels.len() <= evidence.len(),
    ensures
        keys_distinct(relationship_records(rs, content, chapter_num, rels, evidence).0),
        forall|k: int|
            0 <= k < relationship_records(rs, content, chapter_num, rels, evidence).0.len() ==> {
                let r = #[trigger] relationship_records(rs, content, chapter_num, rels, evidence).0[k];
                &&& r.2 is Some
                &&& r.0 == GROUP_KEY_RELATIONSHIP@
                &&& r.5.len() == 1
                &&& r.5[0].0 == FIELD_KEY_RELATIONSHIP@
            },
    decreases rels.len(),
{
    if rels.len() > 0 {
        let prev = relationship_records(rs, content, chapter_num, rels.drop_last(), evidence);
        lemma_one_record_per_pair(rs, content, chapter_num, rels.drop_last(), evidence);
        let recs = prev.0;
        let rel = rels.last();
        if rel_suspect(rs, content, chapter_num, rel) is None {
            match rel_pair(rs, content, chapter_num, rel) {
                None => {},
                Some((a, b, la, lb, kind)) => {
                    let first = rs[a].display_name@;
                    let second = rs[b].display_name@;
                    let key = pair_key(first, second);
                    let values = pair_values(first, second, la, lb, kind, evidence[rels.len() - 1]);
                    lemma_record_with_key_some(recs, key, 0);
                    match record_with_key(recs, key, 0) {
                        Some(i) => {
                            let next = recs.update(i, with_first_values(recs[i], merge_values_view(recs[i].5[0].2, values).0));
                            assert forall|x: int, y: int|
                                0 <= x < y < next.len() && (#[trigger] next[x]).2 is Some implies next[x].2 != (
                                #[trigger] next[y]).2 by {
                                assert(next[x].2 == recs[x].2);
                                assert(next[y].2 == recs[y].2);
                            }
                            assert forall|k: int| 0 <= k < next.len() implies {
                                let r = #[trigger] next[k];
                                &&& r.2 is Some
                                &&& r.0 == GROUP_KEY_RELATIONSHIP@
                                &&& r.5.len() == 1
                                &&& r.5[0].0 == FIELD_KEY_RELATIONSHIP@
                            } by {
                                assert(recs[k].2 is Some);
                            }
                        },
                        None => {
                            lemma_record_with_key_none(recs, key, 0);
                            let next = recs.push(pair_record(first, second, values));
                            assert forall|x: int, y: int|
                                0 <= x < y < next.len() && (#[trigger] next[x]).2 is Some implies next[x].2 != (
                                #[trigger] next[y]).2 by {
                                if y < recs.len() {
                                    assert(next[x] == recs[x]);
                                    assert(next[y] == recs[y]);
                                } else {
                                    assert(recs[x].2 != Some(key));
                                }
                            }
                            assert forall|k: int| 0 <= k < next.len() implies {
                                let r = #[trigger] next[k];
                                &&& r.2 is Some
                                &&& r.0 == GROUP_KEY_RELATIONSHIP@
                                &&& r.5.len() == 1
                                &&& r.5[0].0 == FIELD_KEY_RELATIONSHIP@
                            } by {
                                if k < recs.len() {
                                    assert(next[k] == recs[k]);
                                }
                            }
                        },
                    }
                },
            }
        }
    }
}

// ------------------------------------------------------------------------
// Either way round.
// ------------------------------------------------------------------------
/// The relationship read from the other end: source and target exchanged,
/// and the two labels with them.
pub open spec fn reversed_rel(rel: RelView) -> RelView {
    (rel.1, rel.0, rel.2, rel.3, rel.5, rel.4, rel.6)
}

pub open spec fn reversed_rels(rels: Seq<RelView>) -> Seq<RelView> {
    rels.map_values(|r: RelView| reversed_rel(r))
}

/// No two character records have names with the same key.
pub open spec fn name_keys_distinct(rs: Seq<StoryExtractionRecordPayload>) -> bool {
    forall|i: int, j: int|
        0 <= i < rs.len() && 0 <= j < rs.len() && i != j ==> text_key(
            (#[trigger] rs[i]).display_name@,
            false,
        ) != text_key((#[trigger] rs[j]).display_name@, false)
}

proof fn lemma_reversed_pair(
    rs: Seq<StoryExtractionRecordPayload>,
    content: Seq<char>,
    chapter_num: int,
    rel: RelView,
)
    requires
        name_keys_distinct(rs),
    ensures
        rel_pair(rs, content, chapter_num, reversed_rel(rel)) == rel_pair(rs, content, chapter_num, rel),
        (rel_suspect(rs, content, chapter_num, reversed_rel(rel)) is None) == (rel_suspect(
            rs,
            content,
            chapter_num,
            rel,
        ) is None),
{
    let rev = reversed_rel(rel);
    assert(rel_source(rs, rev) == rel_target(rs, rel));
    assert(rel_target(rs, rev) == rel_source(rs, rel));
    assert(rel_evidence(content, chapter_num, rev) == rel_evidence(content, chapter_num, rel));
    assert(rel_complete(rs, rev) == rel_complete(rs, rel));
    if rel_complete(rs, rel) {
        let s = rel_source(rs, rel)->0;
        let t = rel_target(rs, rel)->0;
        lemma_resolved_bound(rs, rel.0);
        lemma_resolved_bound(rs, rel.1);
        let ks = text_key(rs[s].display_name@, false);
        let kt = text_key(rs[t].display_name@, false);
        assert(ks != kt);
        lemma_less_total(ks, kt);
        lemma_less_asym(ks, kt);
    }
}

/// Taking every relationship from the other end, source and target and
/// their labels exchanged, gives the same relationship records: each pair is
/// kept in the order of its names' keys, with each label read from its own
/// side. This holds when no two character records have names with the same
/// key; where two do, the order given decides which comes first.
pub proof fn lemma_relationship_records_either_way(
    rs: Seq<StoryExtractionRecordPayload>,
    content: Seq<char>,
    chapter_num: int,
    rels: Seq<RelView>,
    evidence: Seq<Seq<StoryEvidenceSpan>>,
)
    requires
        name_keys_distinct(rs),
    ensures
        relationship_records(rs, content, chapter_num, reversed_rels(rels), evidence).0
            == relationship_records(rs, content, chapter_num, rels, evidence).0,
    decreases rels.len(),
{
    if rels.len() > 0 {
        let rev = reversed_rels(rels);
        assert(rev.drop_last() =~= reversed_rels(rels.drop_last()));
        assert(rev.last() == reversed_rel(rels.last()));
        lemma_relationship_records_either_way(rs, content, chapter_num, rels.drop_last(), evidence);
        lemma_reversed_pair(rs, content, chapter_num, rels.last());
    }
}

/// What `build_relationship_records` gives for some relationships is also
/// what it gives for them taken from the other end (see
/// `lemma_relationship_records_either_way`); only the suspect items may
/// differ.
pub proof fn lemma_built_either_way(
    rs: Seq<StoryExtractionRecordPayload>,
    content: Seq<char>,
    chapter_num: int,
    rels: Seq<RelView>,
    evidence: Seq<Seq<StoryEvidenceSpan>>,
    sus_before: Seq<SuspectView>,
    recs: Seq<RecordView>,
    sus: Seq<SuspectView>,
)
    requires
        name_keys_distinct(rs),
        built_from(rs, content, chapter_num, rels, evidence, sus_before, recs, sus),
    ensures
        built_from(
            rs,
            content,
            chapter_num,
            reversed_rels(rels),
            evidence,
            sus_before,
            recs,
            sus_before + relationship_records(rs, content, chapter_num, reversed_rels(rels), evidence).1,
        ),
{
    lemma_relationship_records_either_way(rs, content, chapter_num, rels, evidence);
    let rev = reversed_rels(rels);
    assert forall|i: int|
        0 <= i < rev.len() && rel_pair(rs, content, chapter_num, rev[i]) is Some implies span_views(
        #[trigger] evidence[i],
    ) == rel_evidence(content, chapter_num, rev[i]) by {
        lemma_reversed_pair(rs, content, chapter_num, rels[i]);
        assert(rev[i] == reversed_rel(rels[i]));
    }
}

} // verus!
