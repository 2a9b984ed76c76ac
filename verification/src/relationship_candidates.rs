//! The relationship pass of the local analysis: the characters a chapter's
//! relationships may join, the model's candidates resolved to pairs of them,
//! and the pass as a state machine, one pair at a time.
use vstd::prelude::*;
use crate::characters::{
    alias_label_of, alias_type_of, alias_view, alias_views, normalize_character_alias_label,
    normalize_character_alias_type, AliasView, CharacterAlias, CharacterIdentity,
};
use crate::domain::{clone_evidence, Chapter, StoryEvidenceSpan};
use crate::keys::{normalize_ascii_snake_key, snake_key};
use crate::records::{
    is_alias_field, is_character_alias_field_key, StoryExtractionDocument, StoryExtractionFieldPayload,
    StoryExtractionRecordPayload,
};
use crate::relationship_pass::{
    candidate_grounded, candidate_kind, extraction_view, extraction_views, normalize_relationship_candidate_kind,
    pair_extraction, relationship_candidate_has_grounded_evidence, relationship_candidate_to_pair_extraction,
    resolve_relationship_identity_index, resolved_identity, CharacterRelationshipCandidate,
    CharacterRelationshipExtraction, ExtractionView,
};
use crate::analysis_step::StepNotice;
use crate::surfaces::{clean_character_surface, clean_surface};
use crate::text::{opt_view, owned, push_str, str_eq, str_is_blank, trim};

verus! {

// ------------------------------------------------------------------------
// The characters of the pass.
// ------------------------------------------------------------------------
/// An alias a record holds, before its primary flag: text, type, label,
/// evidence.
pub type AliasEntry = (Seq<char>, Seq<char>, Seq<char>, Seq<StoryEvidenceSpan>);

/// The aliases of a record's fields, field by field, value by value.
pub open spec fn record_alias_entries(fields: Seq<StoryExtractionFieldPayload>) -> Seq<AliasEntry>
    decreases fields.len(),
{
    if fields.len() == 0 {
        seq![]
    } else {
        let prev = record_alias_entries(fields.drop_last());
        let f = fields.last();
        if is_alias_field(f) {
            let key = alias_type_of(f.field_key@);
            prev + f.values@.map_values(
                |v: crate::records::StoryExtractionFieldValuePayload|
                    (v.value@, alias_type_of(key), alias_label_of(key, f.field_label@), v.evidence@),
            )
        } else {
            prev
        }
    }
}

/// Whether a field of a record holds aliases of a kind that is kept: the
/// aliases of `payload_record_aliases` come from these fields, in order.
pub fn is_alias_field_payload(field: &StoryExtractionFieldPayload) -> (r: bool)
    ensures
        r == is_alias_field(*field),
{
    let key = normalize_character_alias_type(field.field_key.as_str());
    if !is_character_alias_field_key(key.as_str()) {
        return false;
    }
    let alias_type = normalize_character_alias_type(key.as_str());
    crate::characters::is_persistable_character_alias_type(alias_type.as_str())
}

/// The aliases with their primary flags: the `i`-th is primary when
/// `primary[i]` says so.
pub open spec fn flagged_aliases(entries: Seq<AliasEntry>, primary: Seq<bool>) -> Seq<AliasView> {
    Seq::new(
        entries.len(),
        |i: int| (entries[i].0, entries[i].1, entries[i].2, i < primary.len() && primary[i], entries[i].3),
    )
}

/// The aliases a record holds, with the primary flag of each alias given:
/// whether its confidence reaches one is decided by the caller.
pub fn payload_record_aliases(record: &StoryExtractionRecordPayload, primary: &Vec<bool>) -> (r: Vec<CharacterAlias>)
    ensures
        alias_views(r@) == flagged_aliases(record_alias_entries(record.fields@), primary@),
{
    let mut out: Vec<CharacterAlias> = Vec::new();
    let mut i: usize = 0;
    proof {
        assert(record.fields@.take(0) =~= Seq::<StoryExtractionFieldPayload>::empty());
    }
    while i < record.fields.len()
        invariant
            0 <= i <= record.fields@.len(),
            alias_views(out@) == flagged_aliases(record_alias_entries(record.fields@.take(i as int)), primary@),
        decreases record.fields@.len() - i,
    {
        let field = &record.fields[i];
        let ghost before = record_alias_entries(record.fields@.take(i as int));
        proof {
            assert(record.fields@.take(i + 1).drop_last() =~= record.fields@.take(i as int));
            assert(record.fields@.take(i + 1).last() == *field);
        }
        let key = normalize_character_alias_type(field.field_key.as_str());
        if is_character_alias_field_key(key.as_str()) {
            let alias_type = normalize_character_alias_type(key.as_str());
            if crate::characters::is_persistable_character_alias_type(alias_type.as_str()) {
                let label = normalize_character_alias_label(key.as_str(), field.field_label.as_str());
                let ghost added = field.values@.map_values(
                    |v: crate::records::StoryExtractionFieldValuePayload|
                        (v.value@, alias_type_of(key@), alias_label_of(key@, field.field_label@), v.evidence@),
                );
                let mut j: usize = 0;
                while j < field.values.len()
                    invariant
                        0 <= j <= field.values@.len(),
                        added == field.values@.map_values(
                            |v: crate::records::StoryExtractionFieldValuePayload|
                                (v.value@, alias_type_of(key@), alias_label_of(key@, field.field_label@), v.evidence@),
                        ),
                        alias_type@ == alias_type_of(key@),
                        label@ == alias_label_of(key@, field.field_label@),
                        alias_views(out@) == flagged_aliases(before + added.take(j as int), primary@),
                    decreases field.values@.len() - j,
                {
                    let n = out.len();
                    let is_primary = n < primary.len() && primary[n];
                    let value = &field.values[j];
                    let alias = CharacterAlias {
                        text: value.value.clone(),
                        alias_type: alias_type.clone(),
                        alias_label: label.clone(),
                        is_primary,
                        evidence: clone_evidence(&value.evidence),
                    };
                    let ghost prev = alias_views(out@);
                    out.push(alias);
                    proof {
                        assert(added[j as int] == (value.value@, alias_type_of(key@), alias_label_of(key@, field.field_label@), value.evidence@));
                        assert(flagged_aliases(before + added.take(j + 1), primary@) =~= prev.push(alias_view(alias)));
                        assert(alias_views(out@) =~= prev.push(alias_view(alias)));
                    }
                    j += 1;
                }
                proof {
                    assert(added.take(j as int) =~= added);
                    assert(record_alias_entries(record.fields@.take(i + 1)) == before + added);
                }
            } else {
                proof {
                    assert(record_alias_entries(record.fields@.take(i + 1)) == before);
                }
            }
        } else {
            proof {
                assert(record_alias_entries(record.fields@.take(i + 1)) == before);
            }
        }
        i += 1;
    }
    proof {
        assert(record.fields@.take(i as int) =~= record.fields@);
    }
    out
}

/// The key a record is told apart by: its entity key when it is not blank,
/// else its name, in snake case.
pub open spec fn record_identity_key(r: StoryExtractionRecordPayload) -> Seq<char> {
    match r.entity_key {
        Some(k) => if trim(k@).len() > 0 {
            snake_key(k@)
        } else {
            snake_key(r.display_name@)
        },
        None => snake_key(r.display_name@),
    }
}

/// The characters a relationship may join: each character record with a
/// mention, once per key, by its name and its aliases (`primary[i]` flags
/// the aliases of the `i`-th record); with the keys seen.
pub open spec fn relationship_identities(records: Seq<StoryExtractionRecordPayload>, primary: Seq<Seq<bool>>) -> (
    Seq<(Seq<char>, Seq<AliasView>)>,
    Seq<Seq<char>>,
)
    decreases records.len(),
{
    if records.len() == 0 {
        (seq![], seq![])
    } else {
        let (ids, keys) = relationship_identities(records.drop_last(), primary);
        let n = records.len() - 1;
        let r = records[n];
        let key = record_identity_key(r);
        if r.group_key@ != "character"@ || r.mentions@.len() == 0 || key.len() == 0 || keys.contains(key) {
            (ids, keys)
        } else {
            let flags = if n < primary.len() {
                primary[n]
            } else {
                seq![]
            };
            (ids.push((r.display_name@, flagged_aliases(record_alias_entries(r.fields@), flags))), keys.push(key))
        }
    }
}

pub open spec fn identity_views(ids: Seq<CharacterIdentity>) -> Seq<(Seq<char>, Seq<AliasView>)> {
    ids.map_values(|i: CharacterIdentity| (i.name@, alias_views(i.aliases@)))
}

fn contains_text(keys: &Vec<String>, key: &String) -> (r: bool)
    ensures
        r == keys@.map_values(|k: String| k@).contains(key@),
{
    crate::text::str_list_contains(keys, key.as_str())
}

/// The characters of the relationship pass, one per key; `primary[i]` holds the primary
/// flags of the aliases of the `i`-th record.
pub fn character_identities_for_relationships(
    document: &StoryExtractionDocument,
    primary: &Vec<Vec<bool>>,
) -> (r: Vec<CharacterIdentity>)
    ensures
        identity_views(r@) == relationship_identities(
            document.records@,
            primary@.map_values(|p: Vec<bool>| p@),
        ).0,
{
    let ghost flags = primary@.map_values(|p: Vec<bool>| p@);
    let ghost records = document.records@;
    let mut identities: Vec<CharacterIdentity> = Vec::new();
    let mut seen: Vec<String> = Vec::new();
    let mut i: usize = 0;
    proof {
        assert(records.take(0) =~= Seq::<StoryExtractionRecordPayload>::empty());
        assert(identity_views(identities@) =~= Seq::<(Seq<char>, Seq<AliasView>)>::empty());
        assert(seen@.map_values(|k: String| k@) =~= Seq::<Seq<char>>::empty());
    }
    while i < document.records.len()
        invariant
            records == document.records@,
            flags == primary@.map_values(|p: Vec<bool>| p@),
            0 <= i <= records.len(),
            (identity_views(identities@), seen@.map_values(|k: String| k@)) == relationship_identities(
                records.take(i as int),
                flags,
            ),
        decreases records.len() - i,
    {
        let record = &document.records[i];
        proof {
            assert(records.take(i + 1).drop_last() =~= records.take(i as int));
            assert(records.take(i + 1)[i as int] == *record);
        }
        let source = match &record.entity_key {
            Some(k) => if str_is_blank(k.as_str()) {
                record.display_name.as_str()
            } else {
                k.as_str()
            },
            None => record.display_name.as_str(),
        };
        let key = normalize_ascii_snake_key(source);
        if str_eq(record.group_key.as_str(), "character") && record.mentions.len() > 0 && !key.as_str().is_empty()
            && !contains_text(&seen, &key) {
            let empty: Vec<bool> = Vec::new();
            let flags_i = if i < primary.len() {
                &primary[i]
            } else {
                &empty
            };
            proof {
                if i < primary@.len() {
                    assert(flags[i as int] == primary@[i as int]@);
                }
                assert(flags_i@ == if (i as int) < flags.len() {
                    flags[i as int]
                } else {
                    Seq::<bool>::empty()
                });
            }
            let aliases = payload_record_aliases(record, flags_i);
            let identity = CharacterIdentity { name: record.display_name.clone(), aliases };
            let ghost before = identity_views(identities@);
            let ghost seen_before = seen@.map_values(|k: String| k@);
            identities.push(identity);
            seen.push(key);
            proof {
                assert(identity_views(identities@) =~= before.push((identity.name@, alias_views(identity.aliases@))));
                assert(seen@.map_values(|k: String| k@) =~= seen_before.push(key@));
            }
        }
        i += 1;
    }
    proof {
        assert(records.take(i as int) =~= records);
    }
    identities
}

// ------------------------------------------------------------------------
// Candidates resolved to pairs.
// ------------------------------------------------------------------------
/// Why a candidate was not kept: its code and the cleaned names.
#[derive(Debug, Clone)]
pub struct ResolutionWarning {
    pub code: &'static str,
    pub source_name: String,
    pub target_name: String,
    pub relationship_kind: Option<&'static str>,
}

pub type WarningView = (Seq<char>, Seq<char>, Seq<char>, Option<Seq<char>>);

pub open spec fn warning_view(w: ResolutionWarning) -> WarningView {
    (w.code@, w.source_name@, w.target_name@, match w.relationship_kind {
        Some(k) => Some(k@),
        None => None,
    })
}

pub open spec fn warning_views(ws: Seq<ResolutionWarning>) -> Seq<WarningView> {
    ws.map_values(|w: ResolutionWarning| warning_view(w))
}

/// The pairs and their relationships as the specifications see them.
pub type PairsView = Seq<((int, int), Seq<ExtractionView>)>;

pub open spec fn pair_entry(pairs: PairsView, key: (int, int), i: int) -> Option<int>
    decreases pairs.len() - i,
{
    if i < 0 || i >= pairs.len() {
        None
    } else if pairs[i].0 == key {
        Some(i)
    } else {
        pair_entry(pairs, key, i + 1)
    }
}

/// What one candidate does: its warning, or its pair and relationship.
/// `confident` is the caller's confidence gate for it.
pub open spec fn candidate_outcome(
    c: CharacterRelationshipCandidate,
    confident: bool,
    identities: Seq<CharacterIdentity>,
    content: Seq<char>,
    chapter_num: int,
) -> Result<(int, int, ExtractionView), WarningView> {
    let source = clean_surface(c.source_name@);
    let target = clean_surface(c.target_name@);
    let kind = candidate_kind(snake_key(c.relationship_kind@));
    if kind != "stable_relation"@ {
        Err(("relationship_candidate_not_stable"@, source, target, Some(kind)))
    } else if !confident {
        Err(("relationship_candidate_low_confidence"@, source, target, None))
    } else if resolved_identity(identities, source) is None {
        Err(("relationship_source_not_resolved"@, source, target, None))
    } else if resolved_identity(identities, target) is None {
        Err(("relationship_target_not_resolved"@, source, target, None))
    } else if resolved_identity(identities, source) == resolved_identity(identities, target) {
        Err(("relationship_self_reference_skipped"@, source, target, None))
    } else if !candidate_grounded(c, content) {
        Err(("relationship_candidate_not_grounded"@, source, target, None))
    } else {
        Ok(
            pair_extraction(
                c,
                resolved_identity(identities, source)->0,
                resolved_identity(identities, target)->0,
                chapter_num,
            ),
        )
    }
}

/// The candidates in turn: each kept relationship joins the entry of its
/// pair (made the first time the pair is seen); each other one leaves a
/// warning.
pub open spec fn resolved_candidates(
    cs: Seq<CharacterRelationshipCandidate>,
    confident: Seq<bool>,
    identities: Seq<CharacterIdentity>,
    content: Seq<char>,
    chapter_num: int,
) -> (PairsView, Seq<WarningView>)
    decreases cs.len(),
{
    if cs.len() == 0 {
        (seq![], seq![])
    } else {
        let n = cs.len() - 1;
        let (pairs, warnings) = resolved_candidates(cs.drop_last(), confident, identities, content, chapter_num);
        let ok = n < confident.len() && confident[n];
        match candidate_outcome(cs[n], ok, identities, content, chapter_num) {
            Err(w) => (pairs, warnings.push(w)),
            Ok((a, b, e)) => match pair_entry(pairs, (a, b), 0) {
                Some(i) => (pairs.update(i, (pairs[i].0, pairs[i].1.push(e))), warnings),
                None => (pairs.push(((a, b), seq![e])), warnings),
            },
        }
    }
}

pub open spec fn pairs_view(pairs: Seq<((usize, usize), Vec<CharacterRelationshipExtraction>)>) -> PairsView {
    pairs.map_values(
        |p: ((usize, usize), Vec<CharacterRelationshipExtraction>)|
            ((p.0.0 as int, p.0.1 as int), extraction_views(p.1@)),
    )
}

fn find_pair(pairs: &Vec<((usize, usize), Vec<CharacterRelationshipExtraction>)>, a: usize, b: usize) -> (r: Option<usize>)
    ensures
        match r {
            Some(i) => pair_entry(pairs_view(pairs@), (a as int, b as int), 0) == Some(i as int) && i < pairs@.len(),
            None => pair_entry(pairs_view(pairs@), (a as int, b as int), 0) is None,
        },
{
    let ghost pv = pairs_view(pairs@);
    let mut i: usize = 0;
    while i < pairs.len()
        invariant
            pv == pairs_view(pairs@),
            0 <= i <= pairs@.len(),
            pair_entry(pv, (a as int, b as int), 0) == pair_entry(pv, (a as int, b as int), i as int),
        decreases pairs@.len() - i,
    {
        assert(pv[i as int].0 == (pairs@[i as int].0.0 as int, pairs@[i as int].0.1 as int));
        if pairs[i].0.0 == a && pairs[i].0.1 == b {
            return Some(i);
        }
        i += 1;
    }
    None
}

fn warning(code: &'static str, source: &String, target: &String, kind: Option<&'static str>) -> (r: ResolutionWarning)
    ensures
        r.code == code,
        r.source_name@ == source@,
        r.target_name@ == target@,
        r.relationship_kind == kind,
{
    ResolutionWarning { code, source_name: source.clone(), target_name: target.clone(), relationship_kind: kind }
}

/// `confident[i]` is the
/// caller's confidence gate for the `i`-th candidate. The pairs come in the
/// order they are first seen.
#[verifier::rlimit(40)]
pub fn resolve_character_relationship_candidates(
    candidates: Vec<CharacterRelationshipCandidate>,
    confident: &Vec<bool>,
    identities: &Vec<CharacterIdentity>,
    chapter: &Chapter,
) -> (r: (Vec<((usize, usize), Vec<CharacterRelationshipExtraction>)>, Vec<ResolutionWarning>))
    ensures
        (pairs_view(r.0@), warning_views(r.1@)) == resolved_candidates(
            candidates@,
            confident@,
            identities@,
            chapter.content@,
            chapter.chapter_num as int,
        ),
{
    let ghost items = candidates@;
    let ghost content = chapter.content@;
    let ghost num = chapter.chapter_num as int;
    let mut pairs: Vec<((usize, usize), Vec<CharacterRelationshipExtraction>)> = Vec::new();
    let mut warnings: Vec<ResolutionWarning> = Vec::new();
    let mut rest = candidates;
    let total = rest.len();
    let mut taken: usize = 0;
    proof {
        assert(items.take(0) =~= Seq::<CharacterRelationshipCandidate>::empty());
        assert(items.skip(0) =~= items);
        assert(pairs_view(pairs@) =~= Seq::<((int, int), Seq<ExtractionView>)>::empty());
        assert(warning_views(warnings@) =~= Seq::<WarningView>::empty());
    }
    while rest.len() > 0
        invariant
            taken + rest@.len() == items.len(),
            items.len() == total,
            rest@ == items.skip(taken as int),
            content == chapter.content@,
            num == chapter.chapter_num as int,
            (pairs_view(pairs@), warning_views(warnings@)) == resolved_candidates(
                items.take(taken as int),
                confident@,
                identities@,
                content,
                num,
            ),
        decreases rest@.len(),
    {
        let candidate = rest.remove(0);
        proof {
            assert(candidate == items[taken as int]);
            assert(rest@ =~= items.skip(taken + 1));
            assert(items.take(taken + 1).drop_last() =~= items.take(taken as int));
            assert(items.take(taken + 1)[taken as int] == candidate);
        }
        let ghost pv = pairs_view(pairs@);
        let ghost wv = warning_views(warnings@);
        let ok = taken < confident.len() && confident[taken];
        let ghost outcome = candidate_outcome(candidate, ok, identities@, content, num);
        let source = clean_character_surface(candidate.source_name.as_str());
        let target = clean_character_surface(candidate.target_name.as_str());
        let kind = normalize_relationship_candidate_kind(candidate.relationship_kind.as_str());
        let mut found: Option<ResolutionWarning> = None;
        if !str_eq(kind, "stable_relation") {
            found = Some(warning("relationship_candidate_not_stable", &source, &target, Some(kind)));
        } else if !ok {
            found = Some(warning("relationship_candidate_low_confidence", &source, &target, None));
        } else {
            match resolve_relationship_identity_index(identities, source.as_str()) {
                None => {
                    found = Some(warning("relationship_source_not_resolved", &source, &target, None));
                },
                Some(source_index) => match resolve_relationship_identity_index(identities, target.as_str()) {
                    None => {
                        found = Some(warning("relationship_target_not_resolved", &source, &target, None));
                    },
                    Some(target_index) => {
                        if source_index == target_index {
                            found = Some(warning("relationship_self_reference_skipped", &source, &target, None));
                        } else if !relationship_candidate_has_grounded_evidence(&candidate, chapter) {
                            found = Some(warning("relationship_candidate_not_grounded", &source, &target, None));
                        } else {
                            let (a, b, e) = relationship_candidate_to_pair_extraction(
                                candidate,
                                source_index,
                                target_index,
                                chapter.chapter_num,
                            );
                            match find_pair(&pairs, a, b) {
                                Some(i) => {
                                    let (key, mut list) = pairs.remove(i);
                                    let ghost lv = extraction_views(list@);
                                    list.push(e);
                                    pairs.insert(i, (key, list));
                                    proof {
                                        assert(extraction_views(list@) =~= lv.push(extraction_view(e)));
                                        assert(pairs_view(pairs@) =~= pv.update(
                                            i as int,
                                            (pv[i as int].0, pv[i as int].1.push(extraction_view(e))),
                                        ));
                                    }
                                },
                                None => {
                                    let list = vec![e];
                                    pairs.push(((a, b), list));
                                    proof {
                                        assert(extraction_views(list@) =~= seq![extraction_view(e)]);
                                        assert(pairs_view(pairs@) =~= pv.push(((a as int, b as int), seq![extraction_view(e)])));
                                    }
                                },
                            }
                        }
                    },
                },
            }
        }
        match found {
            Some(w) => {
                warnings.push(w);
                proof {
                    assert(warning_views(warnings@) =~= wv.push(warning_view(w)));
                }
            },
            None => {},
        }
        taken += 1;
    }
    proof {
        assert(items.take(taken as int) =~= items);
    }
    (pairs, warnings)
}


// ------------------------------------------------------------------------
// The pass, one pair at a time.
// ------------------------------------------------------------------------
pub const RELATIONSHIP_PASS_INTRO: &'static str = "\n\n\u{110}\u{e2}y l\u{e0} relationship candidate pass sau khi character identity, aliases, mentions v\u{e0} fields c\u{1ee7}a ch\u{1b0}\u{1a1}ng hi\u{1ec7}n t\u{1ea1}i \u{111}\u{e3} ho\u{e0}n t\u{1ea5}t. Ch\u{1ec9} tr\u{1ea3} quan h\u{1ec7} c\u{f3} evidence trong ch\u{1b0}\u{1a1}ng hi\u{1ec7}n t\u{1ea1}i; aliases ch\u{1ec9} d\u{f9}ng \u{111}\u{1ec3} resolve v\u{1ec1} canonical character, kh\u{f4}ng ph\u{1ea3}i node ri\u{ea}ng.";

/// Where the relationship pass stands.
#[derive(Debug, Clone, Copy, PartialEq, Eq, Structural)]
pub enum RelationshipStage {
    Start,
    CandidatePass,
    Verifying,
    Persisting,
    Done,
}

/// The state of the pass: its stage, the pair it is at, and how many
/// records were added to the document.
#[derive(Debug, Clone, Copy, PartialEq, Eq, Structural)]
pub struct RelationshipStepState {
    pub stage: RelationshipStage,
    pub pair: usize,
    pub pair_count: usize,
    pub records_added: usize,
}

/// What came of the last action.
#[derive(Debug, Clone)]
pub enum RelationshipStepEvent {
    /// The characters of the pass were found; the context of the novel.
    Begun { identity_count: usize, novel_context: String },
    /// The candidate pass answered (and the candidates were resolved to
    /// this many pairs), or failed.
    CandidatesAnswered { error: Option<String>, pair_count: usize },
    /// The relationships of the pair were normalized and checked; whether a
    /// record of the pair was added to the document.
    PairVerified { record_added: bool },
    /// The document was stored.
    DocumentPersisted,
}

/// What the caller does next.
#[derive(Debug, Clone)]
pub enum RelationshipStepAction {
    /// Ask the relationship candidate pass, with this context.
    CallCandidatePass { prior_context: String },
    /// Normalize and check the relationships of this pair, and add its
    /// record when some are kept.
    VerifyPair { pair: usize },
    /// Store the document with its relationship records.
    PersistDocument,
    /// The pass is over; when the candidate pass failed, it is reported
    /// without blocking the chapter.
    Finish { candidate_pass_error: Option<String> },
    /// Fewer than two characters: there is no pass.
    FinishWithoutPass,
}

pub open spec fn relationship_state_wf(s: RelationshipStepState) -> bool {
    &&& s.records_added <= s.pair
    &&& s.stage == RelationshipStage::Verifying ==> s.pair < s.pair_count
}

pub open spec fn relationship_event_fits(stage: RelationshipStage, event: RelationshipStepEvent) -> bool {
    match event {
        RelationshipStepEvent::Begun { .. } => stage == RelationshipStage::Start,
        RelationshipStepEvent::CandidatesAnswered { .. } => stage == RelationshipStage::CandidatePass,
        RelationshipStepEvent::PairVerified { .. } => stage == RelationshipStage::Verifying,
        RelationshipStepEvent::DocumentPersisted => stage == RelationshipStage::Persisting,
    }
}

pub fn start_relationship_pass() -> (r: RelationshipStepState)
    ensures
        r.stage == RelationshipStage::Start,
        relationship_state_wf(r),
{
    RelationshipStepState { stage: RelationshipStage::Start, pair: 0, pair_count: 0, records_added: 0 }
}

/// What one step of the relationship pass gives: the next state and action,
/// for the state and what came of the last action.
pub open spec fn relationship_step(
    state: RelationshipStepState,
    event: RelationshipStepEvent,
    r: (RelationshipStepState, RelationshipStepAction),
) -> bool {
    &&& relationship_state_wf(r.0)
    &&& match event {
        RelationshipStepEvent::Begun { identity_count, novel_context } => if identity_count < 2 {
            r.0.stage == RelationshipStage::Done && r.1 is FinishWithoutPass
        } else {
            r.0.stage == RelationshipStage::CandidatePass && (r.1 matches RelationshipStepAction::CallCandidatePass {
                prior_context,
            } && prior_context@ == novel_context@ + RELATIONSHIP_PASS_INTRO@)
        },
        RelationshipStepEvent::CandidatesAnswered { error, pair_count } => match error {
            Some(m) => r.0.stage == RelationshipStage::Done && (r.1 matches RelationshipStepAction::Finish {
                candidate_pass_error: Some(e),
            } && e@ == m@),
            None => if pair_count == 0 {
                r.0.stage == RelationshipStage::Done && (r.1 matches RelationshipStepAction::Finish {
                    candidate_pass_error: None,
                })
            } else {
                &&& r.0 == RelationshipStepState {
                    stage: RelationshipStage::Verifying,
                    pair: 0,
                    pair_count,
                    records_added: 0,
                }
                &&& r.1 matches RelationshipStepAction::VerifyPair { pair } && pair == 0
            },
        },
        RelationshipStepEvent::PairVerified { record_added } => {
            let added = state.records_added + if record_added {
                1int
            } else {
                0int
            };
            if state.pair + 1 < state.pair_count {
                &&& r.0.stage == RelationshipStage::Verifying
                &&& r.0.pair == state.pair + 1 && r.0.pair_count == state.pair_count
                &&& r.0.records_added == added
                &&& r.1 matches RelationshipStepAction::VerifyPair { pair } && pair == state.pair + 1
            } else if added > 0 {
                r.0.stage == RelationshipStage::Persisting && r.0.records_added == added && r.1 is PersistDocument
            } else {
                r.0.stage == RelationshipStage::Done && (r.1 matches RelationshipStepAction::Finish {
                    candidate_pass_error: None,
                })
            }
        },
        RelationshipStepEvent::DocumentPersisted => r.0.stage == RelationshipStage::Done && (r.1 matches RelationshipStepAction::Finish {
            candidate_pass_error: None,
        }),
    }
}

/// The relationship pass over a chapter, one decision at a time:
/// the next state, the next action, and the project event to publish once
/// the document with the new relationship records was stored.
pub fn relationship_pass_transition(state: RelationshipStepState, event: RelationshipStepEvent) -> (r: (
    RelationshipStepState,
    RelationshipStepAction,
    Option<StepNotice>,
))
    requires
        relationship_state_wf(state),
        relationship_event_fits(state.stage, event),
    ensures
        relationship_step(state, event, (r.0, r.1)),
        r.2 == (if event is DocumentPersisted {
            Some(StepNotice::RelationshipCandidatesPersisted)
        } else {
            None
        }),
{
    let notice = match &event {
        RelationshipStepEvent::DocumentPersisted => Some(StepNotice::RelationshipCandidatesPersisted),
        _ => None,
    };
    let (next, action) = next_relationship_step(state, event);
    (next, action, notice)
}

fn next_relationship_step(state: RelationshipStepState, event: RelationshipStepEvent) -> (r: (
    RelationshipStepState,
    RelationshipStepAction,
))
    requires
        relationship_state_wf(state),
        relationship_event_fits(state.stage, event),
    ensures
        relationship_step(state, event, r),
{
    let done = RelationshipStepState { stage: RelationshipStage::Done, ..state };
    match event {
        RelationshipStepEvent::Begun { identity_count, novel_context } => {
            if identity_count < 2 {
                (done, RelationshipStepAction::FinishWithoutPass)
            } else {
                let mut prior_context = novel_context;
                push_str(&mut prior_context, RELATIONSHIP_PASS_INTRO);
                (
                    RelationshipStepState { stage: RelationshipStage::CandidatePass, ..state },
                    RelationshipStepAction::CallCandidatePass { prior_context },
                )
            }
        },
        RelationshipStepEvent::CandidatesAnswered { error, pair_count } => match error {
            Some(m) => (done, RelationshipStepAction::Finish { candidate_pass_error: Some(m) }),
            None => {
                if pair_count == 0 {
                    (done, RelationshipStepAction::Finish { candidate_pass_error: None })
                } else {
                    (
                        RelationshipStepState {
                            stage: RelationshipStage::Verifying,
                            pair: 0,
                            pair_count,
                            records_added: 0,
                        },
                        RelationshipStepAction::VerifyPair { pair: 0 },
                    )
                }
            },
        },
        RelationshipStepEvent::PairVerified { record_added } => {
            let added = if record_added {
                state.records_added + 1
            } else {
                state.records_added
            };
            if state.pair + 1 < state.pair_count {
                let next = state.pair + 1;
                (
                    RelationshipStepState {
                        stage: RelationshipStage::Verifying,
                        pair: next,
                        pair_count: state.pair_count,
                        records_added: added,
                    },
                    RelationshipStepAction::VerifyPair { pair: next },
                )
            } else if added > 0 {
                (
                    RelationshipStepState {
                        stage: RelationshipStage::Persisting,
                        pair: state.pair + 1,
                        pair_count: state.pair_count,
                        records_added: added,
                    },
                    RelationshipStepAction::PersistDocument,
                )
            } else {
                (done, RelationshipStepAction::Finish { candidate_pass_error: None })
            }
        },
        RelationshipStepEvent::DocumentPersisted => (done, RelationshipStepAction::Finish { candidate_pass_error: None }),
    }
}

} // verus!
