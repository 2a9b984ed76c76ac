//! Turning a cloud extraction into records: quotes found back in the chapter
//! as evidence, the surfaces that resolve to one character, the mentions of a
//! character, and the merging of records that name the same character.
use vstd::prelude::*;
use crate::characters::{
    character_identity_surfaces, identity_surface_items, surface_pair_views, surfaces_scan,
    CharacterIdentity,
};
use crate::documents::{field_view, field_views, record_view, record_views, FieldView, RecordView};
use crate::domain::{Chapter, StoryCharacterMention, StoryEvidenceSpan};
use crate::keys::{normalize_ascii_snake_key, normalized_folded_text_key, normalized_text_key, snake_key, text_key};
use crate::occurrences::{
    find_surface_occurrences, non_overlapping, occ_view, occ_views, occurrence_views,
    select_non_overlapping_occurrences, surface_occurrences, OccView, ScannedCharacterOccurrence,
};
use crate::records::{
    is_low_signal_alias_candidate_record, label_preferred, low_signal, merge_target,
    probable_alias_record_merge_target, relationship_label_prefer_candidate,
    relationship_value_label, value_label, value_view, value_views, StoryExtractionFieldPayload,
    StoryExtractionFieldValuePayload, StoryExtractionRecordPayload, ValueView,
};
use crate::relationship_pass::{span_view, span_views, SpanView};
use crate::surfaces::{is_ambiguous_character_surface, is_ambiguous_surface};
use crate::text::{chars_of, find_from, occurs_at, owned, seq_less, str_eq, str_less, trim, trim_str};

verus! {

// ------------------------------------------------------------------------
// Quotes found back in the chapter.
// ------------------------------------------------------------------------
/// The first index from `i` on where `quote` occurs in `text`.
pub open spec fn first_at(text: Seq<char>, quote: Seq<char>, i: int) -> Option<int>
    decreases text.len() + 1 - i,
{
    if i < 0 || i > text.len() {
        None
    } else if occurs_at(text, quote, i) {
        Some(i)
    } else {
        first_at(text, quote, i + 1)
    }
}

proof fn lemma_first_at_found(text: Seq<char>, quote: Seq<char>, k: int, i: int)
    requires
        0 <= k <= i,
        occurs_at(text, quote, i),
        forall|j: int| k <= j < i ==> !occurs_at(text, quote, j),
    ensures
        first_at(text, quote, k) == Some(i),
    decreases i - k,
{
    if k < i {
        lemma_first_at_found(text, quote, k + 1, i);
    }
}

proof fn lemma_first_at_none(text: Seq<char>, quote: Seq<char>, k: int)
    requires
        0 <= k,
        forall|j: int| k <= j ==> !occurs_at(text, quote, j),
    ensures
        first_at(text, quote, k) is None,
    decreases text.len() + 1 - k,
{
    if k <= text.len() {
        lemma_first_at_none(text, quote, k + 1);
    }
}

/// The char offsets of the first occurrence of a quote in the chapter text.
pub open spec fn quote_offsets(text: Seq<char>, quote: Seq<char>) -> Option<(int, int)> {
    match first_at(text, quote, 0) {
        Some(s) => Some((s, s + quote.len())),
        None => None,
    }
}

pub fn find_quote_offsets(chapter_text: &str, quote: &str) -> (r: Option<(i64, i64)>)
    requires
        chapter_text@.len() < i64::MAX,
    ensures
        match r {
            Some((s, e)) => quote_offsets(chapter_text@, quote@) == Some((s as int, e as int)),
            None => quote_offsets(chapter_text@, quote@) is None,
        },
{
    let text = chars_of(chapter_text);
    let q = chars_of(quote);
    match find_from(&text, &q, 0) {
        Some(start) => {
            proof {
                lemma_first_at_found(text@, q@, 0, start as int);
                assert(occurs_at(text@, q@, start as int));
                assert(start + q@.len() <= text@.len());
            }
            assert(start as int + q.len() as int <= text.len() as int);
            let end: usize = start + q.len();
            Some((start as i64, end as i64))
        },
        None => {
            proof {
                lemma_first_at_none(text@, q@, 0);
            }
            None
        },
    }
}

/// The evidence the quotes give: each quote, trimmed, once by key, that is
/// found in the chapter, with its offsets and `reason`.
pub open spec fn quotes_scan(
    text: Seq<char>,
    chapter_num: int,
    quotes: Seq<Seq<char>>,
    reason: Seq<char>,
) -> (Seq<SpanView>, Seq<Seq<char>>)
    decreases quotes.len(),
{
    if quotes.len() == 0 {
        (seq![], seq![])
    } else {
        let (evidence, seen) = quotes_scan(text, chapter_num, quotes.drop_last(), reason);
        let q = trim(quotes.last());
        let key = text_key(q, false);
        if q.len() == 0 || seen.contains(key) {
            (evidence, seen)
        } else {
            match quote_offsets(text, q) {
                Some((s, e)) => (
                    evidence.push((chapter_num, Some(s as i64), Some(e as i64), Some(q), Some(reason))),
                    seen.push(key),
                ),
                None => (evidence, seen.push(key)),
            }
        }
    }
}

fn list_contains(keys: &Vec<String>, key: &str) -> (r: bool)
    ensures
        r == keys@.map_values(|k: String| k@).contains(key@),
{
    let ghost kv = keys@.map_values(|k: String| k@);
    let mut i: usize = 0;
    while i < keys.len()
        invariant
            kv == keys@.map_values(|k: String| k@),
            0 <= i <= keys@.len(),
            forall|j: int| 0 <= j < i ==> kv[j] != key@,
        decreases keys@.len() - i,
    {
        if str_eq(keys[i].as_str(), key) {
            assert(kv[i as int] == key@);
            return true;
        }
        i += 1;
    }
    false
}

pub fn map_quotes_to_evidence(chapter: &Chapter, quotes: &Vec<String>, reason: &str) -> (r: Vec<StoryEvidenceSpan>)
    requires
        chapter.content@.len() < i64::MAX,
    ensures
        span_views(r@) == quotes_scan(
            chapter.content@,
            chapter.chapter_num as int,
            quotes@.map_values(|q: String| q@),
            reason@,
        ).0,
{
    let ghost qv = quotes@.map_values(|q: String| q@);
    let mut evidence: Vec<StoryEvidenceSpan> = Vec::new();
    let mut seen: Vec<String> = Vec::new();
    let mut i: usize = 0;
    proof {
        assert(qv.take(0) =~= Seq::<Seq<char>>::empty());
        assert(span_views(evidence@) =~= Seq::<SpanView>::empty());
        assert(seen@.map_values(|k: String| k@) =~= Seq::<Seq<char>>::empty());
    }
    while i < quotes.len()
        invariant
            chapter.content@.len() < i64::MAX,
            qv == quotes@.map_values(|q: String| q@),
            0 <= i <= quotes@.len(),
            (span_views(evidence@), seen@.map_values(|k: String| k@)) == quotes_scan(
                chapter.content@,
                chapter.chapter_num as int,
                qv.take(i as int),
                reason@,
            ),
        decreases quotes@.len() - i,
    {
        proof {
            assert(qv.take(i + 1).drop_last() =~= qv.take(i as int));
            assert(qv.take(i + 1).last() == quotes@[i as int]@);
        }
        let quote = trim_str(quotes[i].as_str());
        let key = normalized_text_key(quote.as_str());
        if !quote.as_str().is_empty() && !list_contains(&seen, key.as_str()) {
            let ghost sb = seen@;
            seen.push(key);
            proof {
                assert(seen@.map_values(|k: String| k@) =~= sb.map_values(|k: String| k@).push(
                    text_key(quote@, false),
                ));
            }
            match find_quote_offsets(chapter.content.as_str(), quote.as_str()) {
                Some((start_char, end_char)) => {
                    let ghost eb = span_views(evidence@);
                    let span = StoryEvidenceSpan {
                        chapter_num: chapter.chapter_num,
                        start_char: Some(start_char),
                        end_char: Some(end_char),
                        quote: Some(quote),
                        reason: Some(owned(reason)),
                    };
                    evidence.push(span);
                    proof {
                        assert(span_views(evidence@) =~= eb.push(span_view(span)));
                    }
                },
                None => {},
            }
        }
        i += 1;
    }
    proof {
        assert(qv.take(i as int) =~= qv);
    }
    evidence
}

// ------------------------------------------------------------------------
// Appearance fields.
// ------------------------------------------------------------------------
/// The field classes kept for a character: appearance and what belongs to it.
pub open spec fn persistable_field_class(key: Seq<char>) -> bool {
    key == "physical_appearance"@ || key == "clothing"@ || key == "age_or_build"@ || key == "appearance"@
}

pub fn field_semantic_class_is_persistable(semantic_class: &str) -> (r: bool)
    ensures
        r == persistable_field_class(semantic_class@),
{
    str_eq(semantic_class, "physical_appearance") || str_eq(semantic_class, "clothing") || str_eq(
        semantic_class,
        "age_or_build",
    ) || str_eq(semantic_class, "appearance")
}

/// A field of the appearance pass: by its class, else by its key.
pub open spec fn mvp_appearance(field_key: Seq<char>, semantic_class: Seq<char>) -> bool {
    if semantic_class.len() == 0 {
        persistable_field_class(field_key) || field_key == "appearance"@
    } else {
        persistable_field_class(semantic_class)
    }
}

pub fn field_is_mvp_appearance(field_key: &str, semantic_class: &str) -> (r: bool)
    ensures
        r == mvp_appearance(field_key@, semantic_class@),
{
    if semantic_class.is_empty() {
        return field_semantic_class_is_persistable(field_key) || str_eq(field_key, "appearance");
    }
    field_semantic_class_is_persistable(semantic_class)
}

// ------------------------------------------------------------------------
// Keys and labels of records.
// ------------------------------------------------------------------------
/// The folded key of `surface` added to `keys`, unless empty or seen.
pub open spec fn pushed_surface_key(keys: Seq<Seq<char>>, seen: Seq<Seq<char>>, surface: Seq<char>) -> (
    Seq<Seq<char>>,
    Seq<Seq<char>>,
) {
    let key = text_key(surface, true);
    if key.len() == 0 || seen.contains(key) {
        (keys, seen)
    } else {
        (keys.push(key), seen.push(key))
    }
}

pub fn push_character_record_surface_key(keys: &mut Vec<String>, seen: &mut Vec<String>, surface: &str)
    ensures
        (final(keys)@.map_values(|k: String| k@), final(seen)@.map_values(|k: String| k@))
            == pushed_surface_key(
            old(keys)@.map_values(|k: String| k@),
            old(seen)@.map_values(|k: String| k@),
            surface@,
        ),
{
    let key = normalized_folded_text_key(surface);
    if !key.as_str().is_empty() && !list_contains(seen, key.as_str()) {
        let ghost kb = keys@;
        let ghost sb = seen@;
        seen.push(key.clone());
        keys.push(key);
        proof {
            assert(keys@.map_values(|k: String| k@) =~= kb.map_values(|k: String| k@).push(
                text_key(surface@, true),
            ));
            assert(seen@.map_values(|k: String| k@) =~= sb.map_values(|k: String| k@).push(
                text_key(surface@, true),
            ));
        }
    }
}

/// The value after `candidate` is offered as its label: taken as value and
/// label when it is preferred to the current label.
pub open spec fn offered_label(v: ValueView, candidate: Seq<char>) -> ValueView {
    if label_preferred(value_label(v), candidate) {
        (candidate, v.1, v.2, Some(candidate), v.4, v.5)
    } else {
        v
    }
}

pub fn update_preferred_payload_relationship_label(target: &mut StoryExtractionFieldValuePayload, candidate: &str)
    ensures
        value_view(*final(target)) == offered_label(value_view(*old(target)), candidate@),
{
    let current = relationship_value_label(target);
    if relationship_label_prefer_candidate(current.as_str(), candidate) {
        target.value = owned(candidate);
        target.relationship_label = Some(owned(candidate));
    }
}

// ------------------------------------------------------------------------
// The mentions of a character.
// ------------------------------------------------------------------------
/// A mention as the specifications see it: start, end, text, type.
pub type MentionView = (int, int, Seq<char>, Option<Seq<char>>);

pub open spec fn mention_view(m: StoryCharacterMention) -> MentionView {
    (m.start_char as int, m.end_char as int, m.text@, match m.mention_type {
        Some(t) => Some(t@),
        None => None,
    })
}

pub open spec fn mention_views(s: Seq<StoryCharacterMention>) -> Seq<MentionView> {
    s.map_values(|m: StoryCharacterMention| mention_view(m))
}

/// The occurrences of an identity's surfaces in a text, each with its kind
/// of mention and whether the surface is ambiguous.
pub open spec fn identity_scan(surfaces: Seq<(Seq<char>, Seq<char>)>, text: Seq<char>) -> Seq<OccView>
    decreases surfaces.len(),
{
    if surfaces.len() == 0 {
        seq![]
    } else {
        let (surface, kind) = surfaces.last();
        identity_scan(surfaces.drop_last(), text) + surface_occurrences(text, surface).map_values(
            |o: (int, int, Seq<char>)| (o.0, o.1, o.2, kind, is_ambiguous_surface(surface)),
        )
    }
}

/// The mentions of an identity in the chapter: its non-overlapping occurrences.
pub open spec fn identity_mentions(chapter_text: Seq<char>, identity: CharacterIdentity) -> Seq<MentionView> {
    non_overlapping(identity_scan(surfaces_scan(identity_surface_items(identity)).0, chapter_text)).map_values(
        |o: OccView| (o.0, o.1, o.2, Some(o.3)),
    )
}

pub fn scan_identity_mentions(chapter: &Chapter, identity: &CharacterIdentity) -> (r: Vec<StoryCharacterMention>)
    requires
        chapter.content@.len() < i64::MAX,
    ensures
        mention_views(r@) == identity_mentions(chapter.content@, *identity),
{
    let surfaces = character_identity_surfaces(identity);
    let ghost sv = surface_pair_views(surfaces@);
    let mut scanned: Vec<ScannedCharacterOccurrence> = Vec::new();
    let mut i: usize = 0;
    proof {
        assert(sv.take(0) =~= Seq::<(Seq<char>, Seq<char>)>::empty());
        assert(occ_views(scanned@) =~= Seq::<OccView>::empty());
    }
    while i < surfaces.len()
        invariant
            chapter.content@.len() < i64::MAX,
            sv == surface_pair_views(surfaces@),
            0 <= i <= surfaces@.len(),
            occ_views(scanned@) == identity_scan(sv.take(i as int), chapter.content@),
        decreases surfaces@.len() - i,
    {
        proof {
            assert(sv.take(i + 1).drop_last() =~= sv.take(i as int));
            assert(sv.take(i + 1).last() == sv[i as int]);
            assert(sv[i as int] == (surfaces@[i as int].0@, surfaces@[i as int].1@));
        }
        let surface = &surfaces[i];
        let ambiguous = is_ambiguous_character_surface(surface.0.as_str());
        let mut found = find_surface_occurrences(
            chapter.content.as_str(),
            surface.0.as_str(),
            surface.1.as_str(),
            ambiguous,
        );
        let ghost before = occ_views(scanned@);
        let ghost fv = found@;
        proof {
            assert(occ_views(fv) =~= occurrence_views(fv).map_values(
                |o: (int, int, Seq<char>)| (o.0, o.1, o.2, surface.1@, is_ambiguous_surface(surface.0@)),
            ));
        }
        scanned.append(&mut found);
        proof {
            assert(occ_views(scanned@) =~= before + occ_views(fv));
        }
        i += 1;
    }
    proof {
        assert(sv.take(i as int) =~= sv);
    }
    let selected = select_non_overlapping_occurrences(scanned);
    let ghost sel_items = selected@;
    let ghost selected_views = occ_views(selected@);
    let mut mentions: Vec<StoryCharacterMention> = Vec::new();
    let mut rest = selected;
    let total = rest.len();
    let mut taken: usize = 0;
    proof {
        assert(mention_views(mentions@) =~= selected_views.take(0).map_values(
            |o: OccView| (o.0, o.1, o.2, Some(o.3)),
        ));
        assert(sel_items.skip(0) =~= sel_items);
    }
    while rest.len() > 0
        invariant
            selected_views == occ_views(sel_items),
            sel_items.len() == total,
            taken + rest@.len() == total,
            rest@ == sel_items.skip(taken as int),
            mention_views(mentions@) == selected_views.take(taken as int).map_values(
                |o: OccView| (o.0, o.1, o.2, Some(o.3)),
            ),
        decreases rest@.len(),
    {
        let occurrence = rest.remove(0);
        proof {
            assert(occurrence == sel_items[taken as int]);
            assert(selected_views[taken as int] == occ_view(occurrence));
            assert(rest@ =~= sel_items.skip(taken + 1));
        }
        let ghost mb = mention_views(mentions@);
        let mention = StoryCharacterMention {
            text: occurrence.text,
            start_char: occurrence.start_char,
            end_char: occurrence.end_char,
            mention_type: Some(occurrence.mention_type),
        };
        mentions.push(mention);
        proof {
            assert(mention_views(mentions@) =~= mb.push(mention_view(mention)));
            assert(selected_views.take(taken + 1) =~= selected_views.take(taken as int).push(
                selected_views[taken as int],
            ));
            assert(selected_views.take(taken + 1).map_values(|o: OccView| (o.0, o.1, o.2, Some(o.3)))
                =~= selected_views.take(taken as int).map_values(
                |o: OccView| (o.0, o.1, o.2, Some(o.3)),
            ).push(
                (
                    selected_views[taken as int].0,
                    selected_views[taken as int].1,
                    selected_views[taken as int].2,
                    Some(selected_views[taken as int].3),
                ),
            ));
        }
        taken += 1;
    }
    proof {
        assert(selected_views.take(taken as int) =~= selected_views);
    }
    mentions
}

// ------------------------------------------------------------------------
// Surfaces that resolve to one character.
// ------------------------------------------------------------------------
/// The entry of `key`, if the map has one.
pub open spec fn surface_entry(map: Seq<(Seq<char>, Option<int>)>, key: Seq<char>, i: int) -> Option<int>
    decreases map.len() - i,
{
    if i < 0 || i >= map.len() {
        None
    } else if map[i].0 == key {
        Some(i)
    } else {
        surface_entry(map, key, i + 1)
    }
}

/// A surface of identity `index` recorded: new keys point to it; a key that
/// points to another identity points to none from then on.
pub open spec fn surface_step(map: Seq<(Seq<char>, Option<int>)>, key: Seq<char>, index: int) -> Seq<
    (Seq<char>, Option<int>),
> {
    if key.len() == 0 {
        map
    } else {
        match surface_entry(map, key, 0) {
            Some(e) => match map[e].1 {
                Some(existing) => if existing != index {
                    map.update(e, (key, None))
                } else {
                    map
                },
                None => map,
            },
            None => map.push((key, Some(index))),
        }
    }
}

pub open spec fn surfaces_step(
    map: Seq<(Seq<char>, Option<int>)>,
    surfaces: Seq<(Seq<char>, Seq<char>)>,
    index: int,
) -> Seq<(Seq<char>, Option<int>)>
    decreases surfaces.len(),
{
    if surfaces.len() == 0 {
        map
    } else {
        surface_step(surfaces_step(map, surfaces.drop_last(), index), text_key(surfaces.last().0, false), index)
    }
}

/// The surface keys of the identities, each pointing to the one identity that
/// has it, or to none when several do.
pub open spec fn surface_map(identities: Seq<CharacterIdentity>) -> Seq<(Seq<char>, Option<int>)>
    decreases identities.len(),
{
    if identities.len() == 0 {
        seq![]
    } else {
        surfaces_step(
            surface_map(identities.drop_last()),
            surfaces_scan(identity_surface_items(identities.last())).0,
            identities.len() - 1,
        )
    }
}

pub open spec fn map_view(map: Seq<(String, Option<usize>)>) -> Seq<(Seq<char>, Option<int>)> {
    map.map_values(
        |e: (String, Option<usize>)|
            (
                e.0@,
                match e.1 {
                    Some(i) => Some(i as int),
                    None => None,
                },
            ),
    )
}

fn find_surface_entry(map: &Vec<(String, Option<usize>)>, key: &str) -> (r: Option<usize>)
    ensures
        match r {
            Some(i) => surface_entry(map_view(map@), key@, 0) == Some(i as int) && i < map@.len(),
            None => surface_entry(map_view(map@), key@, 0) is None,
        },
{
    let ghost mv = map_view(map@);
    let mut i: usize = 0;
    while i < map.len()
        invariant
            mv == map_view(map@),
            0 <= i <= map@.len(),
            surface_entry(mv, key@, 0) == surface_entry(mv, key@, i as int),
        decreases map@.len() - i,
    {
        assert(mv[i as int].0 == map@[i as int].0@);
        if str_eq(map[i].0.as_str(), key) {
            return Some(i);
        }
        i += 1;
    }
    None
}

/// The surface keys of the identities, as a list of keys each with the
/// identity it points to, or none when several share it.
pub fn build_surface_map(identities: &Vec<CharacterIdentity>) -> (r: Vec<(String, Option<usize>)>)
    ensures
        map_view(r@) == surface_map(identities@),
{
    let mut map: Vec<(String, Option<usize>)> = Vec::new();
    let mut index: usize = 0;
    proof {
        assert(identities@.take(0) =~= Seq::<CharacterIdentity>::empty());
        assert(map_view(map@) =~= Seq::<(Seq<char>, Option<int>)>::empty());
    }
    while index < identities.len()
        invariant
            0 <= index <= identities@.len(),
            map_view(map@) == surface_map(identities@.take(index as int)),
        decreases identities@.len() - index,
    {
        proof {
            assert(identities@.take(index + 1).drop_last() =~= identities@.take(index as int));
            assert(identities@.take(index + 1).last() == identities@[index as int]);
        }
        let surfaces = character_identity_surfaces(&identities[index]);
        let ghost sv = surface_pair_views(surfaces@);
        let ghost start = map_view(map@);
        let mut s: usize = 0;
        proof {
            assert(sv.take(0) =~= Seq::<(Seq<char>, Seq<char>)>::empty());
        }
        while s < surfaces.len()
            invariant
                0 <= index < identities@.len(),
                sv == surface_pair_views(surfaces@),
                0 <= s <= surfaces@.len(),
                map_view(map@) == surfaces_step(start, sv.take(s as int), index as int),
            decreases surfaces@.len() - s,
        {
            proof {
                assert(sv.take(s + 1).drop_last() =~= sv.take(s as int));
                assert(sv.take(s + 1).last() == sv[s as int]);
                assert(sv[s as int].0 == surfaces@[s as int].0@);
            }
            let key = normalized_text_key(surfaces[s].0.as_str());
            if !key.as_str().is_empty() {
                let ghost mv = map_view(map@);
                match find_surface_entry(&map, key.as_str()) {
                    Some(e) => {
                        proof {
                            assert(mv[e as int] == (map@[e as int].0@, match map@[e as int].1 {
                                Some(i) => Some(i as int),
                                None => None,
                            }));
                        }
                        match map[e].1 {
                            Some(existing) => {
                                if existing != index {
                                    map.set(e, (key, None));
                                    proof {
                                        assert(map_view(map@) =~= mv.update(e as int, (key@, None)));
                                    }
                                }
                            },
                            None => {},
                        }
                    },
                    None => {
                        map.push((key, Some(index)));
                        proof {
                            assert(map_view(map@) =~= mv.push((key@, Some(index as int))));
                        }
                    },
                }
            }
            s += 1;
        }
        proof {
            assert(sv.take(s as int) =~= sv);
        }
        index += 1;
    }
    proof {
        assert(identities@.take(index as int) =~= identities@);
    }
    map
}

/// The identity a surface resolves to: the one its key points to.
pub open spec fn resolved_surface(map: Seq<(Seq<char>, Option<int>)>, surface: Seq<char>) -> Option<int> {
    let key = text_key(surface, false);
    if key.len() == 0 {
        None
    } else {
        match surface_entry(map, key, 0) {
            Some(e) => map[e].1,
            None => None,
        }
    }
}

pub fn resolve_surface_to_identity(surface_map: &Vec<(String, Option<usize>)>, surface: &str) -> (r: Option<usize>)
    ensures
        match r {
            Some(i) => resolved_surface(map_view(surface_map@), surface@) == Some(i as int),
            None => resolved_surface(map_view(surface_map@), surface@) is None,
        },
{
    let key = normalized_text_key(surface);
    if key.as_str().is_empty() {
        return None;
    }
    match find_surface_entry(surface_map, key.as_str()) {
        Some(e) => {
            proof {
                assert(map_view(surface_map@)[e as int].1 == match surface_map@[e as int].1 {
                    Some(i) => Some(i as int),
                    None => None,
                });
            }
            surface_map[e].1
        },
        None => None,
    }
}

// ------------------------------------------------------------------------
// Records that name the same character.
// ------------------------------------------------------------------------
/// Mentions in a record are ordered by start, the longer first, then by text.
pub open spec fn record_mention_before(a: StoryCharacterMention, b: StoryCharacterMention) -> bool {
    a.start_char < b.start_char || (a.start_char == b.start_char && (a.end_char > b.end_char || (
    a.end_char == b.end_char && seq_less(a.text@, b.text@))))
}

pub open spec fn record_mention_insert_pos(sorted: Seq<StoryCharacterMention>, x: StoryCharacterMention, p: int) -> int
    decreases p,
{
    if p > 0 && p <= sorted.len() && record_mention_before(x, sorted[p - 1]) {
        record_mention_insert_pos(sorted, x, p - 1)
    } else {
        p
    }
}

proof fn lemma_record_mention_insert_pos(sorted: Seq<StoryCharacterMention>, x: StoryCharacterMention, p: int)
    requires
        0 <= p <= sorted.len(),
    ensures
        0 <= record_mention_insert_pos(sorted, x, p) <= p,
    decreases p,
{
    if p > 0 && record_mention_before(x, sorted[p - 1]) {
        lemma_record_mention_insert_pos(sorted, x, p - 1);
    }
}

/// A stable sort of a record's mentions, as `slice::sort_by` orders them.
pub open spec fn sort_record_mentions(s: Seq<StoryCharacterMention>) -> Seq<StoryCharacterMention>
    decreases s.len(),
{
    if s.len() == 0 {
        seq![]
    } else {
        let prev = sort_record_mentions(s.drop_last());
        prev.insert(record_mention_insert_pos(prev, s.last(), prev.len() as int), s.last())
    }
}

proof fn lemma_sort_record_mentions_len(s: Seq<StoryCharacterMention>)
    ensures
        sort_record_mentions(s).len() == s.len(),
    decreases s.len(),
{
    if s.len() > 0 {
        let prev = sort_record_mentions(s.drop_last());
        lemma_sort_record_mentions_len(s.drop_last());
        lemma_record_mention_insert_pos(prev, s.last(), prev.len() as int);
    }
}

/// Two mentions of the same span and name key.
pub open spec fn same_mention(a: StoryCharacterMention, b: StoryCharacterMention) -> bool {
    a.start_char == b.start_char && a.end_char == b.end_char && text_key(a.text@, false) == text_key(
        b.text@,
        false,
    )
}

/// The mentions with each one like the one kept before it left out.
pub open spec fn dedup_mentions(s: Seq<StoryCharacterMention>) -> Seq<StoryCharacterMention>
    decreases s.len(),
{
    if s.len() == 0 {
        seq![]
    } else {
        let prev = dedup_mentions(s.drop_last());
        if prev.len() > 0 && same_mention(s.last(), prev.last()) {
            prev
        } else {
            prev.push(s.last())
        }
    }
}

/// A record's mentions with new ones added: sorted, then deduplicated.
pub open spec fn merged_record_mentions(target: Seq<StoryCharacterMention>, source: Seq<StoryCharacterMention>) -> Seq<
    StoryCharacterMention,
> {
    dedup_mentions(sort_record_mentions(target + source))
}

fn mention_before(a: &StoryCharacterMention, b: &StoryCharacterMention) -> (r: bool)
    ensures
        r == record_mention_before(*a, *b),
{
    a.start_char < b.start_char || (a.start_char == b.start_char && (a.end_char > b.end_char || (
    a.end_char == b.end_char && str_less(a.text.as_str(), b.text.as_str()))))
}

pub fn merge_record_mentions(target: &mut StoryExtractionRecordPayload, mentions: Vec<StoryCharacterMention>)
    ensures
        record_view(*final(target)).0 == record_view(*old(target)).0,
        record_view(*final(target)).1 == record_view(*old(target)).1,
        record_view(*final(target)).2 == record_view(*old(target)).2,
        record_view(*final(target)).3 == record_view(*old(target)).3,
        record_view(*final(target)).5 == record_view(*old(target)).5,
        final(target).mentions@ == merged_record_mentions(old(target).mentions@, mentions@),
{
    let mut all: Vec<StoryCharacterMention> = Vec::new();
    std::mem::swap(&mut all, &mut target.mentions);
    let mut extra = mentions;
    all.append(&mut extra);
    let ghost items = all@;
    let total = all.len();
    let mut sorted: Vec<StoryCharacterMention> = Vec::new();
    let mut rest = all;
    let mut taken: usize = 0;
    proof {
        assert(items.take(0) =~= Seq::<StoryCharacterMention>::empty());
        assert(items.skip(0) =~= items);
    }
    while rest.len() > 0
        invariant
            items.len() == total,
            taken + rest@.len() == items.len(),
            rest@ == items.skip(taken as int),
            sorted@ == sort_record_mentions(items.take(taken as int)),
        decreases rest@.len(),
    {
        let x = rest.remove(0);
        proof {
            assert(x == items[taken as int]);
            assert(rest@ =~= items.skip(taken + 1));
            assert(items.take(taken + 1).drop_last() =~= items.take(taken as int));
            lemma_sort_record_mentions_len(items.take(taken as int));
        }
        let mut p = sorted.len();
        while p > 0 && mention_before(&x, &sorted[p - 1])
            invariant
                0 <= p <= sorted@.len(),
                record_mention_insert_pos(sorted@, x, sorted@.len() as int) == record_mention_insert_pos(
                    sorted@,
                    x,
                    p as int,
                ),
            decreases p,
        {
            p -= 1;
        }
        sorted.insert(p, x);
        taken += 1;
    }
    proof {
        assert(items.take(taken as int) =~= items);
    }
    let ghost sorted_all = sorted@;
    let total_sorted = sorted.len();
    let mut kept: Vec<StoryCharacterMention> = Vec::new();
    let mut rest2 = sorted;
    let mut done: usize = 0;
    proof {
        assert(sorted_all.take(0) =~= Seq::<StoryCharacterMention>::empty());
        assert(sorted_all.skip(0) =~= sorted_all);
    }
    while rest2.len() > 0
        invariant
            sorted_all.len() == total_sorted,
            done + rest2@.len() == sorted_all.len(),
            rest2@ == sorted_all.skip(done as int),
            kept@ == dedup_mentions(sorted_all.take(done as int)),
        decreases rest2@.len(),
    {
        let x = rest2.remove(0);
        proof {
            assert(x == sorted_all[done as int]);
            assert(rest2@ =~= sorted_all.skip(done + 1));
            assert(sorted_all.take(done + 1).drop_last() =~= sorted_all.take(done as int));
        }
        let same = if kept.len() > 0 {
            let last = &kept[kept.len() - 1];
            last.start_char == x.start_char && last.end_char == x.end_char && str_eq(
                normalized_text_key(last.text.as_str()).as_str(),
                normalized_text_key(x.text.as_str()).as_str(),
            )
        } else {
            false
        };
        if !same {
            kept.push(x);
        }
        done += 1;
    }
    proof {
        assert(sorted_all.take(done as int) =~= sorted_all);
    }
    target.mentions = kept;
}

fn find_field_by_key(fields: &Vec<StoryExtractionFieldPayload>, key: &str) -> (r: Option<usize>)
    ensures
        match r {
            Some(i) => first_field_by_key(field_views(fields@), key@, 0) == Some(i as int) && i
                < fields@.len(),
            None => first_field_by_key(field_views(fields@), key@, 0) is None,
        },
{
    let ghost fv = field_views(fields@);
    let mut i: usize = 0;
    while i < fields.len()
        invariant
            fv == field_views(fields@),
            0 <= i <= fields@.len(),
            first_field_by_key(fv, key@, 0) == first_field_by_key(fv, key@, i as int),
        decreases fields@.len() - i,
    {
        assert(fv[i as int].0 == fields@[i as int].field_key@);
        if str_eq(normalize_ascii_snake_key(fields[i].field_key.as_str()).as_str(), key) {
            return Some(i);
        }
        i += 1;
    }
    None
}

/// The fields after `sources` join them: values go to the field of the same
/// snake key, else the field is added.
pub open spec fn merged_record_fields(fields: Seq<FieldView>, sources: Seq<FieldView>) -> Seq<FieldView>
    decreases sources.len(),
{
    if sources.len() == 0 {
        fields
    } else {
        let prev = merged_record_fields(fields, sources.drop_last());
        let s = sources.last();
        match first_field_by_key(prev, snake_key(s.0), 0) {
            Some(i) => prev.update(i, (prev[i].0, prev[i].1, prev[i].2 + s.2)),
            None => prev.push(s),
        }
    }
}

pub open spec fn first_field_by_key(fields: Seq<FieldView>, key: Seq<char>, i: int) -> Option<int>
    decreases fields.len() - i,
{
    if i < 0 || i >= fields.len() {
        None
    } else if snake_key(fields[i].0) == key {
        Some(i)
    } else {
        first_field_by_key(fields, key, i + 1)
    }
}

pub fn merge_record_fields(target: &mut StoryExtractionRecordPayload, fields: Vec<StoryExtractionFieldPayload>)
    ensures
        record_view(*final(target)).0 == record_view(*old(target)).0,
        record_view(*final(target)).1 == record_view(*old(target)).1,
        record_view(*final(target)).2 == record_view(*old(target)).2,
        record_view(*final(target)).3 == record_view(*old(target)).3,
        final(target).mentions == old(target).mentions,
        field_views(final(target).fields@) == merged_record_fields(
            field_views(old(target).fields@),
            field_views(fields@),
        ),
{
    let ghost head = record_view(*target);
    let ghost start = field_views(target.fields@);
    let ghost items = fields@;
    let ghost src = field_views(items);
    let total = fields.len();
    let mut rest = fields;
    let mut taken: usize = 0;
    proof {
        assert(src.take(0) =~= Seq::<FieldView>::empty());
        assert(items.skip(0) =~= items);
    }
    while rest.len() > 0
        invariant
            src == field_views(items),
            items.len() == total,
            taken + rest@.len() == items.len(),
            rest@ == items.skip(taken as int),
            record_view(*target).0 == head.0,
            record_view(*target).1 == head.1,
            record_view(*target).2 == head.2,
            record_view(*target).3 == head.3,
            target.mentions == old(target).mentions,
            field_views(target.fields@) == merged_record_fields(start, src.take(taken as int)),
        decreases rest@.len(),
    {
        let field = rest.remove(0);
        proof {
            assert(field == items[taken as int]);
            assert(rest@ =~= items.skip(taken + 1));
            assert(src.take(taken + 1).drop_last() =~= src.take(taken as int));
            assert(src.take(taken + 1).last() == field_view(field));
        }
        let key = normalize_ascii_snake_key(field.field_key.as_str());
        let ghost fv = field_views(target.fields@);
        match find_field_by_key(&target.fields, key.as_str()) {
            Some(index) => {
                let mut existing = target.fields.remove(index);
                let ghost before_values = value_views(existing.values@);
                let mut values = field.values;
                let ghost added = value_views(values@);
                existing.values.append(&mut values);
                proof {
                    assert(value_views(existing.values@) =~= before_values + added);
                }
                let ghost updated = field_view(existing);
                target.fields.insert(index, existing);
                proof {
                    assert(field_views(target.fields@) =~= fv.update(index as int, updated));
                }
            },
            None => {
                target.fields.push(field);
                proof {
                    assert(field_views(target.fields@) =~= fv.push(field_view(field)));
                }
            },
        }
        taken += 1;
    }
    proof {
        assert(src.take(taken as int) =~= src);
    }
}

} // verus!
