//! The relationship pass of the local pipeline: the candidates a model names
//! between the chapter's characters, resolved to the characters, grounded in
//! the chapter text, normalized, and turned into relationship records.
use vstd::prelude::*;
use crate::characters::{
    character_identity_surfaces, identity_surface_items, surface_pair_views, surfaces_scan,
    CharacterIdentity,
};
use crate::domain::{Chapter, StoryEvidenceSpan};
use crate::keys::{normalize_ascii_snake_key, normalized_text_key, snake_key, text_key};
use crate::records::{StoryExtractionFieldPayload, StoryExtractionFieldValuePayload, StoryExtractionRecordPayload};
use crate::text::{
    chars_of, collapse_whitespace, collapse_ws, contains_chars, contains_seq, opt_view, owned,
    push_str, str_contains, str_eq, trim, trim_str,
};

verus! {

// ------------------------------------------------------------------------
// Candidates and extractions.
// ------------------------------------------------------------------------
/// A relationship a model names between two characters of the chapter. (The
/// model's confidence is the caller's to keep.)
#[derive(Debug, Clone)]
pub struct CharacterRelationshipCandidate {
    pub source_name: String,
    pub target_name: String,
    pub relationship_kind: String,
    pub relationship_type: String,
    pub source_to_target_label: String,
    pub target_to_source_label: String,
    pub evidence: Vec<StoryEvidenceSpan>,
}

/// A relationship between characters `a` and `b`, with a label each way.
#[derive(Debug, Clone)]
pub struct CharacterRelationshipExtraction {
    pub relationship_type: String,
    pub a_to_b_label: String,
    pub b_to_a_label: String,
    pub evidence: Vec<StoryEvidenceSpan>,
}

/// An evidence span as the specifications see it.
pub type SpanView = (int, Option<i64>, Option<i64>, Option<Seq<char>>, Option<Seq<char>>);

pub open spec fn span_view(e: StoryEvidenceSpan) -> SpanView {
    (e.chapter_num as int, e.start_char, e.end_char, opt_view(e.quote), opt_view(e.reason))
}

pub open spec fn span_views(s: Seq<StoryEvidenceSpan>) -> Seq<SpanView> {
    s.map_values(|e: StoryEvidenceSpan| span_view(e))
}

/// An extraction as the specifications see it: type, the two labels, evidence.
pub type ExtractionView = (Seq<char>, Seq<char>, Seq<char>, Seq<SpanView>);

pub open spec fn extraction_view(e: CharacterRelationshipExtraction) -> ExtractionView {
    (e.relationship_type@, e.a_to_b_label@, e.b_to_a_label@, span_views(e.evidence@))
}

pub open spec fn extraction_views(s: Seq<CharacterRelationshipExtraction>) -> Seq<ExtractionView> {
    s.map_values(|e: CharacterRelationshipExtraction| extraction_view(e))
}

// ------------------------------------------------------------------------
// Kinds and scopes.
// ------------------------------------------------------------------------
/// The kind a candidate names: `stable_relation`, `temporary_interaction`,
/// `event` or `uncertain`.
pub open spec fn candidate_kind(key: Seq<char>) -> Seq<char> {
    if key == "stable_relation"@ || key == "relationship"@ || key == "relation"@ || key
        == "direct_relation"@ {
        "stable_relation"@
    } else if key == "temporary_interaction"@ || key == "interaction"@ || key
        == "scene_interaction"@ {
        "temporary_interaction"@
    } else if key == "event"@ || key == "action"@ || key == "scene_event"@ {
        "event"@
    } else {
        "uncertain"@
    }
}

pub fn normalize_relationship_candidate_kind(value: &str) -> (r: &'static str)
    ensures
        r@ == candidate_kind(snake_key(value@)),
{
    let key = normalize_ascii_snake_key(value);
    let k = key.as_str();
    if str_eq(k, "stable_relation") || str_eq(k, "relationship") || str_eq(k, "relation")
        || str_eq(k, "direct_relation") {
        "stable_relation"
    } else if str_eq(k, "temporary_interaction") || str_eq(k, "interaction") || str_eq(
        k,
        "scene_interaction",
    ) {
        "temporary_interaction"
    } else if str_eq(k, "event") || str_eq(k, "action") || str_eq(k, "scene_event") {
        "event"
    } else {
        "uncertain"
    }
}

/// A verified relationship is kept when its scope is kinship, an organization
/// hierarchy, or another stable relationship.
pub open spec fn scope_persistable(key: Seq<char>) -> bool {
    key == "kinship"@ || key == "organization_hierarchy"@ || key == "stable_relationship"@
}

pub fn relationship_scope_is_persistable(scope: &str) -> (r: bool)
    ensures
        r == scope_persistable(snake_key(scope@)),
{
    let key = normalize_ascii_snake_key(scope);
    str_eq(key.as_str(), "kinship") || str_eq(key.as_str(), "organization_hierarchy") || str_eq(
        key.as_str(),
        "stable_relationship",
    )
}

// ------------------------------------------------------------------------
// Resolving a name to a character.
// ------------------------------------------------------------------------
/// One of the identity's surfaces has the key `key`.
pub open spec fn identity_has_surface_key(identity: CharacterIdentity, key: Seq<char>) -> bool {
    let surfaces = surfaces_scan(identity_surface_items(identity)).0;
    exists|k: int| 0 <= k < surfaces.len() && text_key(#[trigger] surfaces[k].0, false) == key
}

/// The index of the one identity from `i` on with a surface of key `key`
/// (`found` if none is met); none when a second one is met.
pub open spec fn unique_identity_from(
    identities: Seq<CharacterIdentity>,
    key: Seq<char>,
    i: int,
    found: Option<int>,
) -> Option<int>
    decreases identities.len() - i,
{
    if i < 0 || i >= identities.len() {
        found
    } else if identity_has_surface_key(identities[i], key) {
        if found is Some {
            None
        } else {
            unique_identity_from(identities, key, i + 1, Some(i))
        }
    } else {
        unique_identity_from(identities, key, i + 1, found)
    }
}

/// The character a name resolves to: the only identity with a surface of the
/// name's key.
pub open spec fn resolved_identity(identities: Seq<CharacterIdentity>, surface: Seq<char>) -> Option<int> {
    let key = text_key(surface, false);
    if key.len() == 0 {
        None
    } else {
        unique_identity_from(identities, key, 0, None)
    }
}

fn has_surface_key(identity: &CharacterIdentity, key: &str) -> (r: bool)
    ensures
        r == identity_has_surface_key(*identity, key@),
{
    let surfaces = character_identity_surfaces(identity);
    let ghost sv = surface_pair_views(surfaces@);
    let mut i: usize = 0;
    while i < surfaces.len()
        invariant
            sv == surface_pair_views(surfaces@),
            sv == surfaces_scan(identity_surface_items(*identity)).0,
            0 <= i <= surfaces@.len(),
            forall|k: int| 0 <= k < i ==> text_key(#[trigger] sv[k].0, false) != key@,
        decreases surfaces@.len() - i,
    {
        assert(sv[i as int].0 == surfaces@[i as int].0@);
        if str_eq(normalized_text_key(surfaces[i].0.as_str()).as_str(), key) {
            return true;
        }
        i += 1;
    }
    false
}

pub fn resolve_relationship_identity_index(identities: &Vec<CharacterIdentity>, surface: &str) -> (r: Option<
    usize,
>)
    ensures
        match r {
            Some(i) => resolved_identity(identities@, surface@) == Some(i as int),
            None => resolved_identity(identities@, surface@) is None,
        },
{
    let key = normalized_text_key(surface);
    if key.as_str().is_empty() {
        return None;
    }
    let mut matched: Option<usize> = None;
    let mut i: usize = 0;
    while i < identities.len()
        invariant
            key@ == text_key(surface@, false),
            key@.len() > 0,
            0 <= i <= identities@.len(),
            matched matches Some(m) ==> m < i,
            resolved_identity(identities@, surface@) == unique_identity_from(
                identities@,
                key@,
                i as int,
                match matched {
                    Some(m) => Some(m as int),
                    None => None,
                },
            ),
        decreases identities@.len() - i,
    {
        if has_surface_key(&identities[i], key.as_str()) {
            if matched.is_some() {
                return None;
            }
            matched = Some(i);
        }
        i += 1;
    }
    matched
}

// ------------------------------------------------------------------------
// Grounding in the chapter text.
// ------------------------------------------------------------------------
/// The quote, trimmed, occurs in the chapter, as it is or with whitespace runs
/// read as single spaces.
pub open spec fn text_contains_quote(chapter_text: Seq<char>, quote: Seq<char>) -> bool {
    let q = trim(quote);
    &&& q.len() > 0
    &&& (contains_seq(chapter_text, q) || (collapse_ws(q).len() > 0 && contains_seq(
        collapse_ws(chapter_text),
        collapse_ws(q),
    )))
}

pub fn chapter_text_contains_evidence_quote(chapter_text: &str, quote: &str) -> (r: bool)
    ensures
        r == text_contains_quote(chapter_text@, quote@),
{
    let quote = trim_str(quote);
    if quote.as_str().is_empty() {
        return false;
    }
    if str_contains(chapter_text, quote.as_str()) {
        return true;
    }
    let normalized_chapter = collapse_whitespace(&chars_of(chapter_text));
    let normalized_quote = collapse_whitespace(&chars_of(quote.as_str()));
    normalized_quote.len() > 0 && contains_chars(&normalized_chapter, &normalized_quote)
}

/// Some evidence span of the candidate quotes the chapter.
pub open spec fn candidate_grounded(candidate: CharacterRelationshipCandidate, chapter_text: Seq<char>) -> bool {
    exists|i: int|
        0 <= i < candidate.evidence@.len() && match (#[trigger] candidate.evidence@[i]).quote {
            Some(q) => text_contains_quote(chapter_text, q@),
            None => false,
        }
}

pub fn relationship_candidate_has_grounded_evidence(
    candidate: &CharacterRelationshipCandidate,
    chapter: &Chapter,
) -> (r: bool)
    ensures
        r == candidate_grounded(*candidate, chapter.content@),
{
    let mut i: usize = 0;
    while i < candidate.evidence.len()
        invariant
            0 <= i <= candidate.evidence@.len(),
            forall|k: int|
                0 <= k < i ==> !match (#[trigger] candidate.evidence@[k]).quote {
                    Some(q) => text_contains_quote(chapter.content@, q@),
                    None => false,
                },
        decreases candidate.evidence@.len() - i,
    {
        match &candidate.evidence[i].quote {
            Some(q) => {
                if chapter_text_contains_evidence_quote(chapter.content.as_str(), q.as_str()) {
                    return true;
                }
            },
            None => {},
        }
        i += 1;
    }
    false
}

// ------------------------------------------------------------------------
// A candidate as a relationship of a pair.
// ------------------------------------------------------------------------
/// The spans with a quote that is not blank, moved to the chapter, without
/// offsets, the quote trimmed.
pub open spec fn candidate_evidence(evidence: Seq<StoryEvidenceSpan>, chapter_num: int) -> Seq<SpanView>
    decreases evidence.len(),
{
    if evidence.len() == 0 {
        seq![]
    } else {
        let prev = candidate_evidence(evidence.drop_last(), chapter_num);
        let e = evidence.last();
        match e.quote {
            Some(q) => if trim(q@).len() > 0 {
                prev.push((chapter_num, None, None, Some(trim(q@)), opt_view(e.reason)))
            } else {
                prev
            },
            None => prev,
        }
    }
}

fn clone_opt_text(value: &Option<String>) -> (r: Option<String>)
    ensures
        opt_view(r) == opt_view(*value),
{
    match value {
        Some(v) => Some(v.clone()),
        None => None,
    }
}

pub fn normalize_relationship_candidate_evidence(evidence: Vec<StoryEvidenceSpan>, chapter_num: i64) -> (r: Vec<
    StoryEvidenceSpan,
>)
    ensures
        span_views(r@) == candidate_evidence(evidence@, chapter_num as int),
{
    let mut out: Vec<StoryEvidenceSpan> = Vec::new();
    let mut i: usize = 0;
    proof {
        assert(evidence@.take(0) =~= Seq::<StoryEvidenceSpan>::empty());
        assert(span_views(out@) =~= Seq::<SpanView>::empty());
    }
    while i < evidence.len()
        invariant
            0 <= i <= evidence@.len(),
            span_views(out@) == candidate_evidence(evidence@.take(i as int), chapter_num as int),
        decreases evidence@.len() - i,
    {
        proof {
            assert(evidence@.take(i + 1).drop_last() =~= evidence@.take(i as int));
            assert(evidence@.take(i + 1).last() == evidence@[i as int]);
        }
        let e = &evidence[i];
        match &e.quote {
            Some(q) => {
                let quote = trim_str(q.as_str());
                if !quote.as_str().is_empty() {
                    let ghost before = span_views(out@);
                    let span = StoryEvidenceSpan {
                        chapter_num,
                        start_char: None,
                        end_char: None,
                        quote: Some(quote),
                        reason: clone_opt_text(&e.reason),
                    };
                    out.push(span);
                    proof {
                        assert(span_views(out@) =~= before.push(span_view(span)));
                    }
                }
            },
            None => {},
        }
        i += 1;
    }
    proof {
        assert(evidence@.take(i as int) =~= evidence@);
    }
    out
}

/// The relationship type a candidate names: its type, else its first label, as a key.
pub open spec fn candidate_type(c: CharacterRelationshipCandidate) -> Seq<char> {
    if trim(c.relationship_type@).len() == 0 {
        snake_key(c.source_to_target_label@)
    } else {
        snake_key(c.relationship_type@)
    }
}

/// The label read back from the target: its own, else the forward one.
pub open spec fn backward_label(c: CharacterRelationshipCandidate) -> Seq<char> {
    if trim(c.target_to_source_label@).len() == 0 {
        trim(c.source_to_target_label@)
    } else {
        trim(c.target_to_source_label@)
    }
}

/// The candidate as a relationship of the pair with the lower index first,
/// its labels swapped when the target comes first.
pub open spec fn pair_extraction(
    c: CharacterRelationshipCandidate,
    source_index: int,
    target_index: int,
    chapter_num: int,
) -> (int, int, ExtractionView) {
    let evidence = candidate_evidence(c.evidence@, chapter_num);
    if source_index < target_index {
        (source_index, target_index, (candidate_type(c), trim(c.source_to_target_label@), backward_label(c), evidence))
    } else {
        (target_index, source_index, (candidate_type(c), backward_label(c), trim(c.source_to_target_label@), evidence))
    }
}

pub fn relationship_candidate_to_pair_extraction(
    candidate: CharacterRelationshipCandidate,
    source_index: usize,
    target_index: usize,
    chapter_num: i64,
) -> (r: (usize, usize, CharacterRelationshipExtraction))
    ensures
        ({
            let (a, b, e) = pair_extraction(
                candidate,
                source_index as int,
                target_index as int,
                chapter_num as int,
            );
            r.0 as int == a && r.1 as int == b && extraction_view(r.2) == e
        }),
{
    let ghost c = candidate;
    let relationship_type = if trim_str(candidate.relationship_type.as_str()).as_str().is_empty() {
        normalize_ascii_snake_key(candidate.source_to_target_label.as_str())
    } else {
        normalize_ascii_snake_key(candidate.relationship_type.as_str())
    };
    let forward = trim_str(candidate.source_to_target_label.as_str());
    let own_backward = trim_str(candidate.target_to_source_label.as_str());
    let backward = if own_backward.as_str().is_empty() {
        forward.clone()
    } else {
        own_backward
    };
    let evidence = normalize_relationship_candidate_evidence(candidate.evidence, chapter_num);
    if source_index < target_index {
        (
            source_index,
            target_index,
            CharacterRelationshipExtraction {
                relationship_type,
                a_to_b_label: forward,
                b_to_a_label: backward,
                evidence,
            },
        )
    } else {
        (
            target_index,
            source_index,
            CharacterRelationshipExtraction {
                relationship_type,
                a_to_b_label: backward,
                b_to_a_label: forward,
                evidence,
            },
        )
    }
}

// ------------------------------------------------------------------------
// The relationships of a pair, each once.
// ------------------------------------------------------------------------
/// An extraction with its type as a key, its labels trimmed, and its evidence
/// without offsets.
pub open spec fn normalized_extraction(e: ExtractionView) -> ExtractionView {
    (
        snake_key(e.0),
        trim(e.1),
        trim(e.2),
        e.3.map_values(|s: SpanView| (s.0, None::<i64>, None::<i64>, s.3, s.4)),
    )
}

/// Some span quotes something.
pub open spec fn views_have_quote(evidence: Seq<SpanView>) -> bool {
    exists|i: int|
        0 <= i < evidence.len() && match (#[trigger] evidence[i]).3 {
            Some(q) => trim(q).len() > 0,
            None => false,
        }
}

/// A relationship is kept when its type and both labels are there and a span quotes.
pub open spec fn extraction_complete(n: ExtractionView) -> bool {
    n.0.len() > 0 && n.1.len() > 0 && n.2.len() > 0 && views_have_quote(n.3)
}

/// The key of a relationship: `type:forward:backward`, the labels as name keys.
pub open spec fn extraction_key(n: ExtractionView) -> Seq<char> {
    n.0 + ":"@ + text_key(n.1, false) + ":"@ + text_key(n.2, false)
}

/// The complete relationships, normalized, each key once, in order.
pub open spec fn relationships_scan(rels: Seq<ExtractionView>) -> (Seq<ExtractionView>, Seq<Seq<char>>)
    decreases rels.len(),
{
    if rels.len() == 0 {
        (seq![], seq![])
    } else {
        let (out, keys) = relationships_scan(rels.drop_last());
        let n = normalized_extraction(rels.last());
        if !extraction_complete(n) || keys.contains(extraction_key(n)) {
            (out, keys)
        } else {
            (out.push(n), keys.push(extraction_key(n)))
        }
    }
}

fn clear_offsets(evidence: &mut Vec<StoryEvidenceSpan>)
    ensures
        span_views(final(evidence)@) == span_views(old(evidence)@).map_values(
            |s: SpanView| (s.0, None::<i64>, None::<i64>, s.3, s.4),
        ),
{
    let ghost start = span_views(evidence@);
    let mut i: usize = 0;
    while i < evidence.len()
        invariant
            start == span_views(old(evidence)@),
            evidence@.len() == start.len(),
            0 <= i <= start.len(),
            forall|k: int|
                0 <= k < i ==> span_view(#[trigger] evidence@[k]) == (
                    start[k].0,
                    None::<i64>,
                    None::<i64>,
                    start[k].3,
                    start[k].4,
                ),
            forall|k: int| i <= k < start.len() ==> span_view(#[trigger] evidence@[k]) == start[k],
        decreases start.len() - i,
    {
        let mut span = evidence.remove(i);
        span.start_char = None;
        span.end_char = None;
        evidence.insert(i, span);
        i += 1;
    }
    proof {
        assert(span_views(evidence@) =~= start.map_values(
            |s: SpanView| (s.0, None::<i64>, None::<i64>, s.3, s.4),
        ));
    }
}

fn has_quoted_span(evidence: &Vec<StoryEvidenceSpan>) -> (r: bool)
    ensures
        r == views_have_quote(span_views(evidence@)),
{
    let ghost sv = span_views(evidence@);
    let mut i: usize = 0;
    while i < evidence.len()
        invariant
            sv == span_views(evidence@),
            0 <= i <= evidence@.len(),
            forall|k: int|
                0 <= k < i ==> !match (#[trigger] sv[k]).3 {
                    Some(q) => trim(q).len() > 0,
                    None => false,
                },
        decreases evidence@.len() - i,
    {
        assert(sv[i as int] == span_view(evidence@[i as int]));
        match &evidence[i].quote {
            Some(q) => {
                if !trim_str(q.as_str()).as_str().is_empty() {
                    return true;
                }
            },
            None => {},
        }
        i += 1;
    }
    false
}

fn contains_text(keys: &Vec<String>, key: &str) -> (r: bool)
    ensures
        r == keys@.map_values(|k: String| k@).contains(key@),
{
    let ghost kv = keys@.map_values(|k: String| k@);
    let mut i: usize = 0;
    while i < keys.len()
        invariant
            kv == keys@.map_values(|k: String| k@),
            0 <= i <= keys@.len(),
            forall|j: int| 0 <= j < i ==> kv[j] != key@,
        decreases keys@.len() - i,
    {
        if str_eq(keys[i].as_str(), key) {
            assert(kv[i as int] == key@);
            return true;
        }
        i += 1;
    }
    false
}

pub fn normalize_character_relationships(relationships: Vec<CharacterRelationshipExtraction>) -> (r: Vec<
    CharacterRelationshipExtraction,
>)
    ensures
        extraction_views(r@) == relationships_scan(extraction_views(relationships@)).0,
{
    let ghost items = relationships@;
    let ghost src = extraction_views(items);
    let total = relationships.len();
    let mut rest = relationships;
    let mut out: Vec<CharacterRelationshipExtraction> = Vec::new();
    let mut seen: Vec<String> = Vec::new();
    let mut taken: usize = 0;
    proof {
        assert(src.take(0) =~= Seq::<ExtractionView>::empty());
        assert(items.skip(0) =~= items);
        assert(extraction_views(out@) =~= Seq::<ExtractionView>::empty());
        assert(seen@.map_values(|k: String| k@) =~= Seq::<Seq<char>>::empty());
    }
    while rest.len() > 0
        invariant
            src == extraction_views(items),
            items.len() == total,
            taken + rest@.len() == items.len(),
            rest@ == items.skip(taken as int),
            (extraction_views(out@), seen@.map_values(|k: String| k@)) == relationships_scan(
                src.take(taken as int),
            ),
        decreases rest@.len(),
    {
        let mut relationship = rest.remove(0);
        proof {
            assert(relationship == items[taken as int]);
            assert(rest@ =~= items.skip(taken + 1));
            assert(src.take(taken + 1).drop_last() =~= src.take(taken as int));
            assert(src.take(taken + 1).last() == extraction_view(relationship));
        }
        let ghost original = extraction_view(relationship);
        relationship.relationship_type = normalize_ascii_snake_key(relationship.relationship_type.as_str());
        relationship.a_to_b_label = trim_str(relationship.a_to_b_label.as_str());
        relationship.b_to_a_label = trim_str(relationship.b_to_a_label.as_str());
        let complete = !relationship.relationship_type.as_str().is_empty()
            && !relationship.a_to_b_label.as_str().is_empty()
            && !relationship.b_to_a_label.as_str().is_empty() && has_quoted_span(&relationship.evidence);
        if complete {
            clear_offsets(&mut relationship.evidence);
            proof {
                assert(extraction_view(relationship) =~= normalized_extraction(original));
                assert forall|k: int|
                    0 <= k < original.3.len() implies #[trigger] original.3[k].3 == normalized_extraction(
                    original,
                ).3[k].3 by {}
                assert(views_have_quote(original.3) == views_have_quote(normalized_extraction(original).3))
                    by {
                    let n = normalized_extraction(original).3;
                    if views_have_quote(original.3) {
                        let k = choose|k: int|
                            0 <= k < original.3.len() && match (#[trigger] original.3[k]).3 {
                                Some(q) => trim(q).len() > 0,
                                None => false,
                            };
                        assert(n[k].3 == original.3[k].3);
                    }
                    if views_have_quote(n) {
                        let k = choose|k: int|
                            0 <= k < n.len() && match (#[trigger] n[k]).3 {
                                Some(q) => trim(q).len() > 0,
                                None => false,
                            };
                        assert(n[k].3 == original.3[k].3);
                    }
                }
            }
            let mut key = relationship.relationship_type.clone();
            push_str(&mut key, ":");
            push_str(&mut key, normalized_text_key(relationship.a_to_b_label.as_str()).as_str());
            push_str(&mut key, ":");
            push_str(&mut key, normalized_text_key(relationship.b_to_a_label.as_str()).as_str());
            if !contains_text(&seen, key.as_str()) {
                let ghost kb = seen@;
                let ghost ob = extraction_views(out@);
                seen.push(key);
                out.push(relationship);
                proof {
                    assert(seen@.map_values(|k: String| k@) =~= kb.map_values(|k: String| k@).push(key@));
                    assert(extraction_views(out@) =~= ob.push(normalized_extraction(original)));
                }
            }
        } else {
            proof {
                let n = normalized_extraction(original);
                if extraction_complete(n) {
                    let k = choose|k: int|
                        0 <= k < n.3.len() && match (#[trigger] n.3[k]).3 {
                            Some(q) => trim(q).len() > 0,
                            None => false,
                        };
                    assert(span_views(relationship.evidence@)[k].3 == n.3[k].3);
                }
            }
        }
        taken += 1;
    }
    proof {
        assert(src.take(taken as int) =~= src);
    }
    out
}

// ------------------------------------------------------------------------
// The record of a pair.
// ------------------------------------------------------------------------
pub const GROUP_LABEL_RELATIONSHIP: &'static str = "Quan H\u{1ec7}";

pub const FIELD_LABEL_RELATIONSHIP: &'static str = "Quan h\u{1ec7}";

/// A value of the relationship field: `label` read towards `related`.
pub open spec fn pair_value_matches(
    v: StoryExtractionFieldValuePayload,
    label: Seq<char>,
    relationship: ExtractionView,
    related: Seq<char>,
) -> bool {
    &&& v.value@ == label
    &&& opt_view(v.related_character) == Some(related)
    &&& opt_view(v.relationship_type) == Some(relationship.0)
    &&& opt_view(v.relationship_label) == Some(label)
    &&& opt_view(v.relationship_direction) == Some("self_to_related"@)
    &&& span_views(v.evidence@) == relationship.3
}

pub fn relationship_field_value(
    label: &str,
    relationship: &CharacterRelationshipExtraction,
    related_character: &str,
) -> (r: StoryExtractionFieldValuePayload)
    ensures
        pair_value_matches(r, label@, extraction_view(*relationship), related_character@),
{
    let mut evidence: Vec<StoryEvidenceSpan> = Vec::new();
    let mut i: usize = 0;
    while i < relationship.evidence.len()
        invariant
            0 <= i <= relationship.evidence@.len(),
            evidence@ == relationship.evidence@.take(i as int),
        decreases relationship.evidence@.len() - i,
    {
        evidence.push(crate::domain::clone_evidence_span(&relationship.evidence[i]));
        proof {
            assert(evidence@ =~= relationship.evidence@.take(i + 1));
        }
        i += 1;
    }
    proof {
        assert(relationship.evidence@.take(i as int) =~= relationship.evidence@);
    }
    StoryExtractionFieldValuePayload {
        value: owned(label),
        related_character: Some(owned(related_character)),
        relationship_type: Some(relationship.relationship_type.clone()),
        relationship_label: Some(owned(label)),
        relationship_direction: Some(owned("self_to_related")),
        evidence,
    }
}

/// The record of a pair of characters: present when both names have keys and
/// there is a relationship; it holds each relationship's two labels in turn.
pub open spec fn pair_record_matches(
    r: Option<StoryExtractionRecordPayload>,
    a: CharacterIdentity,
    b: CharacterIdentity,
    relationships: Seq<ExtractionView>,
) -> bool {
    let ka = snake_key(a.name@);
    let kb = snake_key(b.name@);
    match r {
        None => ka.len() == 0 || kb.len() == 0 || relationships.len() == 0,
        Some(rec) => {
            &&& ka.len() > 0 && kb.len() > 0 && relationships.len() > 0
            &&& rec.group_key@ == "relationship"@
            &&& rec.group_label@ == GROUP_LABEL_RELATIONSHIP@
            &&& opt_view(rec.entity_key) == Some("relationship|"@ + ka + "|"@ + kb)
            &&& rec.display_name@ == a.name@ + " \u{2194} "@ + b.name@
            &&& rec.mentions@.len() == 0
            &&& rec.fields@.len() == 1
            &&& rec.fields@[0].field_key@ == "relationship"@
            &&& rec.fields@[0].field_label@ == FIELD_LABEL_RELATIONSHIP@
            &&& rec.fields@[0].values@.len() == 2 * relationships.len()
            &&& forall|k: int|
                0 <= k < relationships.len() ==> pair_value_matches(
                    #[trigger] rec.fields@[0].values@[2 * k],
                    relationships[k].1,
                    relationships[k],
                    b.name@,
                ) && pair_value_matches(
                    rec.fields@[0].values@[2 * k + 1],
                    relationships[k].2,
                    relationships[k],
                    a.name@,
                )
        },
    }
}

pub fn relationship_pair_to_record(
    character_a: &CharacterIdentity,
    character_b: &CharacterIdentity,
    relationships: Vec<CharacterRelationshipExtraction>,
) -> (r: Option<StoryExtractionRecordPayload>)
    ensures
        pair_record_matches(r, *character_a, *character_b, extraction_views(relationships@)),
{
    let key_a = normalize_ascii_snake_key(character_a.name.as_str());
    let key_b = normalize_ascii_snake_key(character_b.name.as_str());
    if key_a.as_str().is_empty() || key_b.as_str().is_empty() {
        return None;
    }
    let ghost rv = extraction_views(relationships@);
    let mut values: Vec<StoryExtractionFieldValuePayload> = Vec::new();
    let mut i: usize = 0;
    while i < relationships.len()
        invariant
            rv == extraction_views(relationships@),
            0 <= i <= relationships@.len(),
            values@.len() == 2 * i,
            forall|k: int|
                0 <= k < i ==> pair_value_matches(
                    #[trigger] values@[2 * k],
                    rv[k].1,
                    rv[k],
                    character_b.name@,
                ) && pair_value_matches(values@[2 * k + 1], rv[k].2, rv[k], character_a.name@),
        decreases relationships@.len() - i,
    {
        let relationship = &relationships[i];
        proof {
            assert(rv[i as int] == extraction_view(*relationship));
        }
        let forward = relationship_field_value(
            relationship.a_to_b_label.as_str(),
            relationship,
            character_b.name.as_str(),
        );
        let backward = relationship_field_value(
            relationship.b_to_a_label.as_str(),
            relationship,
            character_a.name.as_str(),
        );
        let ghost before = values@;
        values.push(forward);
        values.push(backward);
        proof {
            assert forall|k: int| 0 <= k < i + 1 implies pair_value_matches(
                #[trigger] values@[2 * k],
                rv[k].1,
                rv[k],
                character_b.name@,
            ) && pair_value_matches(values@[2 * k + 1], rv[k].2, rv[k], character_a.name@) by {
                if k < i {
                    assert(values@[2 * k] == before[2 * k]);
                    assert(values@[2 * k + 1] == before[2 * k + 1]);
                }
            }
        }
        i += 1;
    }
    if values.len() == 0 {
        return None;
    }
    let mut entity_key = owned("relationship|");
    push_str(&mut entity_key, key_a.as_str());
    push_str(&mut entity_key, "|");
    push_str(&mut entity_key, key_b.as_str());
    let mut display_name = character_a.name.clone();
    push_str(&mut display_name, " \u{2194} ");
    push_str(&mut display_name, character_b.name.as_str());
    let field = StoryExtractionFieldPayload {
        field_key: owned("relationship"),
        field_label: owned(FIELD_LABEL_RELATIONSHIP),
        values,
    };
    let mut fields: Vec<StoryExtractionFieldPayload> = Vec::new();
    fields.push(field);
    let record = StoryExtractionRecordPayload {
        group_key: owned("relationship"),
        group_label: owned(GROUP_LABEL_RELATIONSHIP),
        entity_key: Some(entity_key),
        display_name,
        mentions: Vec::new(),
        fields,
    };
    Some(record)
}

} // verus!
