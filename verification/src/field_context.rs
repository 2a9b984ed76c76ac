//! The sentences a character's appearance fields are read from, with the
//! character's mentions marked, and the rules a field value must meet to be
//! kept: quoted, marked, grounded in its quote, of an allowed class.
use vstd::prelude::*;
use crate::alias_context::{distinctive_surface_tokens, distinctive_tokens, is_sentence_boundary};
use crate::characters::{
    character_identity_surfaces, identity_surface_items, surface_pair_views, surfaces_scan,
    CharacterAlias, CharacterIdentity,
};
use crate::domain::StoryEvidenceSpan;
use crate::keys::{normalize_ascii_snake_key, normalized_text_key, snake_key, text_key};
use crate::occurrences::{
    find_surface_occurrences, non_overlapping, occ_view, occ_views, select_non_overlapping_occurrences,
    surface_occurrences, OccView, ScannedCharacterOccurrence,
};
use crate::records::StoryExtractionFieldValuePayload;
use crate::text::{
    chars_of, contains_chars, contains_seq, has_prefix, push_char, push_str, str_eq, string_of, trim, trim_str,
};

verus! {

/// At most this many sentences are given as context for a character's fields.
pub const CHARACTER_FIELD_CONTEXT_MAX_ITEMS: usize = 12;

// ------------------------------------------------------------------------
// Sentences.
// ------------------------------------------------------------------------
pub open spec fn push_sentence(sentences: Seq<Seq<char>>, current: Seq<char>) -> Seq<Seq<char>> {
    if trim(current).len() > 0 {
        sentences.push(trim(current))
    } else {
        sentences
    }
}

/// The finished sentences and the one being read, after the chars of `text`.
pub open spec fn sentence_scan(text: Seq<char>) -> (Seq<Seq<char>>, Seq<char>)
    decreases text.len(),
{
    if text.len() == 0 {
        (seq![], seq![])
    } else {
        let (sentences, current) = sentence_scan(text.drop_last());
        let c = text.last();
        if is_sentence_boundary(c) {
            (push_sentence(sentences, current.push(c)), seq![])
        } else {
            (sentences, current.push(c))
        }
    }
}

/// The sentences of a text, each ending at a boundary char, trimmed, empty
/// ones left out.
pub open spec fn field_sentences(text: Seq<char>) -> Seq<Seq<char>> {
    push_sentence(sentence_scan(text).0, sentence_scan(text).1)
}

pub fn is_character_field_sentence_boundary(c: char) -> (r: bool)
    ensures
        r == is_sentence_boundary(c),
{
    c == '.' || c == '!' || c == '?' || c == '\u{3002}' || c == '\u{ff01}' || c == '\u{ff1f}' || c
        == '\n' || c == '\r'
}

pub fn push_character_field_sentence(sentences: &mut Vec<String>, current: &mut String)
    ensures
        final(sentences)@.map_values(|s: String| s@) == push_sentence(
            old(sentences)@.map_values(|s: String| s@),
            old(current)@,
        ),
        final(current)@ == Seq::<char>::empty(),
{
    let sentence = trim_str(current.as_str());
    if !sentence.as_str().is_empty() {
        let ghost before = sentences@;
        sentences.push(sentence);
        proof {
            assert(sentences@.map_values(|s: String| s@) =~= before.map_values(|s: String| s@).push(
                sentence@,
            ));
        }
    }
    *current = String::new();
    proof {
        assert(current@ =~= Seq::<char>::empty());
    }
}

pub fn split_character_field_sentences(text: &str) -> (r: Vec<String>)
    ensures
        r@.map_values(|s: String| s@) == field_sentences(text@),
{
    let chars = chars_of(text);
    let mut sentences: Vec<String> = Vec::new();
    let mut current = String::new();
    let mut i: usize = 0;
    proof {
        assert(chars@.take(0) =~= Seq::<char>::empty());
        assert(sentences@.map_values(|s: String| s@) =~= Seq::<Seq<char>>::empty());
        assert(current@ =~= Seq::<char>::empty());
    }
    while i < chars.len()
        invariant
            chars@ == text@,
            0 <= i <= chars@.len(),
            (sentences@.map_values(|s: String| s@), current@) == sentence_scan(chars@.take(i as int)),
        decreases chars@.len() - i,
    {
        proof {
            assert(chars@.take(i + 1).drop_last() =~= chars@.take(i as int));
            assert(chars@.take(i + 1).last() == chars@[i as int]);
        }
        let c = chars[i];
        push_char(&mut current, c);
        if is_character_field_sentence_boundary(c) {
            push_character_field_sentence(&mut sentences, &mut current);
        }
        i += 1;
    }
    proof {
        assert(chars@.take(i as int) =~= text@);
    }
    push_character_field_sentence(&mut sentences, &mut current);
    sentences
}

// ------------------------------------------------------------------------
// Marking a character's mentions.
// ------------------------------------------------------------------------
/// Some occurrence starts at `index`.
pub open spec fn starts_at(occurrences: Seq<OccView>, index: int) -> bool {
    exists|k: int| 0 <= k < occurrences.len() && (#[trigger] occurrences[k]).0 == index
}

/// Some occurrence ends at `index`.
pub open spec fn ends_at(occurrences: Seq<OccView>, index: int) -> bool {
    exists|k: int| 0 <= k < occurrences.len() && (#[trigger] occurrences[k]).1 == index
}

/// The first `n` chars of `text`, with `[[` before each char where an
/// occurrence starts and `]]` after each char where one ends.
pub open spec fn marked_prefix(text: Seq<char>, occurrences: Seq<OccView>, n: int) -> Seq<char>
    decreases n,
{
    if n <= 0 {
        seq![]
    } else {
        let i = n - 1;
        marked_prefix(text, occurrences, i) + (if starts_at(occurrences, i) {
            "[["@
        } else {
            seq![]
        }) + seq![text[i]] + (if ends_at(occurrences, i + 1) {
            "]]"@
        } else {
            seq![]
        })
    }
}

fn any_starts_at(occurrences: &Vec<ScannedCharacterOccurrence>, index: i64) -> (r: bool)
    ensures
        r == starts_at(occ_views(occurrences@), index as int),
{
    let ghost ov = occ_views(occurrences@);
    let mut k: usize = 0;
    while k < occurrences.len()
        invariant
            ov == occ_views(occurrences@),
            0 <= k <= occurrences@.len(),
            forall|j: int| 0 <= j < k ==> (#[trigger] ov[j]).0 != index,
        decreases occurrences@.len() - k,
    {
        assert(ov[k as int] == occ_view(occurrences@[k as int]));
        if occurrences[k].start_char == index {
            return true;
        }
        k += 1;
    }
    false
}

fn any_ends_at(occurrences: &Vec<ScannedCharacterOccurrence>, index: i64) -> (r: bool)
    ensures
        r == ends_at(occ_views(occurrences@), index as int),
{
    let ghost ov = occ_views(occurrences@);
    let mut k: usize = 0;
    while k < occurrences.len()
        invariant
            ov == occ_views(occurrences@),
            0 <= k <= occurrences@.len(),
            forall|j: int| 0 <= j < k ==> (#[trigger] ov[j]).1 != index,
        decreases occurrences@.len() - k,
    {
        assert(ov[k as int] == occ_view(occurrences@[k as int]));
        if occurrences[k].end_char == index {
            return true;
        }
        k += 1;
    }
    false
}

pub fn insert_character_field_markers(text: &str, occurrences: &Vec<ScannedCharacterOccurrence>) -> (r: String)
    requires
        text@.len() < i64::MAX,
    ensures
        r@ == marked_prefix(text@, occ_views(occurrences@), text@.len() as int),
{
    let chars = chars_of(text);
    let mut marked = String::new();
    let mut i: usize = 0;
    while i < chars.len()
        invariant
            chars@ == text@,
            chars@.len() < i64::MAX,
            0 <= i <= chars@.len(),
            marked@ == marked_prefix(text@, occ_views(occurrences@), i as int),
        decreases chars@.len() - i,
    {
        let ghost before = marked@;
        let starts = any_starts_at(occurrences, i as i64);
        if starts {
            push_str(&mut marked, "[[");
        }
        push_char(&mut marked, chars[i]);
        let ends = any_ends_at(occurrences, (i + 1) as i64);
        if ends {
            push_str(&mut marked, "]]");
        }
        proof {
            assert(marked@ =~= marked_prefix(text@, occ_views(occurrences@), i + 1));
        }
        i += 1;
    }
    marked
}

/// The occurrences of the identity's surfaces in a sentence, surface by surface.
pub open spec fn identity_occurrences(surfaces: Seq<(Seq<char>, Seq<char>)>, sentence: Seq<char>) -> Seq<OccView>
    decreases surfaces.len(),
{
    if surfaces.len() == 0 {
        seq![]
    } else {
        identity_occurrences(surfaces.drop_last(), sentence) + surface_occurrences(
            sentence,
            surfaces.last().0,
        ).map_values(|o: (int, int, Seq<char>)| (o.0, o.1, o.2, "field_context"@, false))
    }
}

/// The sentence with the identity's non-overlapping mentions marked, when it has any.
pub open spec fn marked_context(sentence: Seq<char>, identity: CharacterIdentity) -> Option<Seq<char>> {
    let selected = non_overlapping(
        identity_occurrences(surfaces_scan(identity_surface_items(identity)).0, sentence),
    );
    if selected.len() == 0 {
        None
    } else {
        Some(marked_prefix(sentence, selected, sentence.len() as int))
    }
}

pub fn mark_character_field_context(sentence: &str, identity: &CharacterIdentity) -> (r: Option<String>)
    requires
        sentence@.len() < i64::MAX,
    ensures
        match r {
            Some(m) => marked_context(sentence@, *identity) == Some(m@),
            None => marked_context(sentence@, *identity) is None,
        },
{
    let surfaces = character_identity_surfaces(identity);
    let ghost sv = surface_pair_views(surfaces@);
    let mut occurrences: Vec<ScannedCharacterOccurrence> = Vec::new();
    let mut i: usize = 0;
    proof {
        assert(sv.take(0) =~= Seq::<(Seq<char>, Seq<char>)>::empty());
        assert(occ_views(occurrences@) =~= Seq::<OccView>::empty());
    }
    while i < surfaces.len()
        invariant
            sentence@.len() < i64::MAX,
            sv == surface_pair_views(surfaces@),
            0 <= i <= surfaces@.len(),
            occ_views(occurrences@) == identity_occurrences(sv.take(i as int), sentence@),
        decreases surfaces@.len() - i,
    {
        proof {
            assert(sv.take(i + 1).drop_last() =~= sv.take(i as int));
            assert(sv.take(i + 1).last() == sv[i as int]);
            assert(sv[i as int].0 == surfaces@[i as int].0@);
        }
        let mut found = find_surface_occurrences(sentence, surfaces[i].0.as_str(), "field_context", false);
        let ghost before = occ_views(occurrences@);
        let ghost fv = found@;
        proof {
            reveal_strlit("field_context");
            assert(occ_views(fv) =~= crate::occurrences::occurrence_views(fv).map_values(
                |o: (int, int, Seq<char>)| (o.0, o.1, o.2, "field_context"@, false),
            ));
        }
        occurrences.append(&mut found);
        proof {
            assert(occ_views(occurrences@) =~= before + occ_views(fv));
        }
        i += 1;
    }
    proof {
        assert(sv.take(i as int) =~= sv);
    }
    let selected = select_non_overlapping_occurrences(occurrences);
    if selected.len() == 0 {
        return None;
    }
    Some(insert_character_field_markers(sentence, &selected))
}

/// The marked sentences of a chunk for an identity, each once by key, at most
/// `CHARACTER_FIELD_CONTEXT_MAX_ITEMS` of them.
pub open spec fn contexts_scan(sentences: Seq<Seq<char>>, identity: CharacterIdentity) -> (Seq<Seq<char>>, Seq<
    Seq<char>,
>)
    decreases sentences.len(),
{
    if sentences.len() == 0 {
        (seq![], seq![])
    } else {
        let (contexts, seen) = contexts_scan(sentences.drop_last(), identity);
        if contexts.len() >= CHARACTER_FIELD_CONTEXT_MAX_ITEMS {
            (contexts, seen)
        } else {
            match marked_context(sentences.last(), identity) {
                Some(c) => if text_key(c, false).len() > 0 && !seen.contains(text_key(c, false)) {
                    (contexts.push(c), seen.push(text_key(c, false)))
                } else {
                    (contexts, seen)
                },
                None => (contexts, seen),
            }
        }
    }
}

proof fn lemma_contexts_saturated(sentences: Seq<Seq<char>>, identity: CharacterIdentity, i: int)
    requires
        0 <= i <= sentences.len(),
        contexts_scan(sentences.take(i), identity).0.len() >= CHARACTER_FIELD_CONTEXT_MAX_ITEMS,
    ensures
        contexts_scan(sentences, identity) == contexts_scan(sentences.take(i), identity),
    decreases sentences.len(),
{
    if sentences.len() == i {
        assert(sentences.take(i) =~= sentences);
    } else {
        assert(sentences.drop_last().take(i) =~= sentences.take(i));
        lemma_contexts_saturated(sentences.drop_last(), identity, i);
    }
}

proof fn lemma_sentence_len(text: Seq<char>)
    ensures
        forall|k: int| 0 <= k < field_sentences(text).len() ==> (#[trigger] field_sentences(text)[k]).len() <= text.len(),
{
    lemma_sentence_scan_len(text);
    crate::text::lemma_trim_len(sentence_scan(text).1);
}

proof fn lemma_sentence_scan_len(text: Seq<char>)
    ensures
        forall|k: int| 0 <= k < sentence_scan(text).0.len() ==> (#[trigger] sentence_scan(text).0[k]).len() <= text.len(),
        sentence_scan(text).1.len() <= text.len(),
    decreases text.len(),
{
    if text.len() > 0 {
        lemma_sentence_scan_len(text.drop_last());
        let (sentences, current) = sentence_scan(text.drop_last());
        crate::text::lemma_trim_len(current.push(text.last()));
    }
}

pub fn build_character_field_contexts(chunk_text: &str, identity: &CharacterIdentity) -> (r: Vec<String>)
    requires
        chunk_text@.len() < i64::MAX,
    ensures
        r@.map_values(|s: String| s@) == contexts_scan(field_sentences(chunk_text@), *identity).0,
{
    let sentences = split_character_field_sentences(chunk_text);
    let ghost sv = sentences@.map_values(|s: String| s@);
    proof {
        lemma_sentence_len(chunk_text@);
    }
    let mut contexts: Vec<String> = Vec::new();
    let mut seen: Vec<String> = Vec::new();
    let mut i: usize = 0;
    proof {
        assert(sv.take(0) =~= Seq::<Seq<char>>::empty());
        assert(contexts@.map_values(|s: String| s@) =~= Seq::<Seq<char>>::empty());
        assert(seen@.map_values(|s: String| s@) =~= Seq::<Seq<char>>::empty());
    }
    while i < sentences.len() && contexts.len() < CHARACTER_FIELD_CONTEXT_MAX_ITEMS
        invariant
            chunk_text@.len() < i64::MAX,
            sv == sentences@.map_values(|s: String| s@),
            sv == field_sentences(chunk_text@),
            forall|k: int| 0 <= k < sv.len() ==> (#[trigger] sv[k]).len() <= chunk_text@.len(),
            0 <= i <= sentences@.len(),
            (contexts@.map_values(|s: String| s@), seen@.map_values(|s: String| s@)) == contexts_scan(
                sv.take(i as int),
                *identity,
            ),
        decreases sentences@.len() - i,
    {
        proof {
            assert(sv.take(i + 1).drop_last() =~= sv.take(i as int));
            assert(sv.take(i + 1).last() == sentences@[i as int]@);
            assert(sv[i as int].len() <= chunk_text@.len());
        }
        match mark_character_field_context(sentences[i].as_str(), identity) {
            Some(context) => {
                let key = normalized_text_key(context.as_str());
                let known = list_has(&seen, key.as_str());
                if !key.as_str().is_empty() && !known {
                    let ghost cb = contexts@;
                    let ghost sb = seen@;
                    contexts.push(context);
                    seen.push(key);
                    proof {
                        assert(contexts@.map_values(|s: String| s@) =~= cb.map_values(|s: String| s@).push(
                            context@,
                        ));
                        assert(seen@.map_values(|s: String| s@) =~= sb.map_values(|s: String| s@).push(
                            key@,
                        ));
                    }
                }
            },
            None => {},
        }
        i += 1;
    }
    proof {
        if i < sentences.len() {
            lemma_contexts_saturated(sv, *identity, i as int);
        } else {
            assert(sv.take(i as int) =~= sv);
        }
    }
    contexts
}

// ------------------------------------------------------------------------
// The values a character's fields keep.
// ------------------------------------------------------------------------
/// A class of appearance.
pub open spec fn semantic_class_allowed(key: Seq<char>) -> bool {
    key == "physical_appearance"@ || key == "clothing"@ || key == "age_or_build"@ || key == "appearance"@
}

pub fn field_value_semantic_class_is_allowed(semantic_class: &str) -> (r: bool)
    ensures
        r == semantic_class_allowed(snake_key(semantic_class@)),
{
    let key = normalize_ascii_snake_key(semantic_class);
    let k = key.as_str();
    str_eq(k, "physical_appearance") || str_eq(k, "clothing") || str_eq(k, "age_or_build") || str_eq(
        k,
        "appearance",
    )
}

pub const FIELD_KEY_APPEARANCE: &'static str = "appearance";

pub const FIELD_LABEL_APPEARANCE: &'static str = "Ngo\u{1ea1}i h\u{ec}nh";

/// The one field kept in the minimal pass: appearance.
pub fn normalize_character_minimal_field(field_key: &str) -> (r: Option<(&'static str, &'static str)>)
    ensures
        match r {
            Some((k, l)) => snake_key(field_key@) == "appearance"@ && k@ == FIELD_KEY_APPEARANCE@ && l@
                == FIELD_LABEL_APPEARANCE@,
            None => snake_key(field_key@) != "appearance"@,
        },
{
    let key = normalize_ascii_snake_key(field_key);
    if str_eq(key.as_str(), "appearance") {
        Some((FIELD_KEY_APPEARANCE, FIELD_LABEL_APPEARANCE))
    } else {
        None
    }
}

/// The keys of an identity's name and aliases, empty ones left out.
pub open spec fn identity_value_keys(identity: CharacterIdentity) -> Seq<Seq<char>> {
    (seq![text_key(identity.name@, false)] + identity.aliases@.map_values(
        |a: CharacterAlias| text_key(a.text@, false),
    )).filter(|k: Seq<char>| k.len() > 0)
}

pub fn character_identity_value_keys(identity: &CharacterIdentity) -> (r: Vec<String>)
    ensures
        r@.map_values(|k: String| k@) == identity_value_keys(*identity),
{
    let ghost all = seq![text_key(identity.name@, false)] + identity.aliases@.map_values(
        |a: CharacterAlias| text_key(a.text@, false),
    );
    let mut keys: Vec<String> = Vec::new();
    let first = normalized_text_key(identity.name.as_str());
    proof {
        reveal(Seq::filter);
        assert(all.take(1) =~= seq![first@]);
        assert(all.take(1).drop_last() =~= Seq::<Seq<char>>::empty());
        assert(Seq::<Seq<char>>::empty().filter(|k: Seq<char>| k.len() > 0) =~= Seq::<Seq<char>>::empty());
    }
    if !first.as_str().is_empty() {
        keys.push(first);
        proof {
            assert(keys@.map_values(|k: String| k@) =~= all.take(1).filter(|k: Seq<char>| k.len() > 0));
        }
    } else {
        proof {
            assert(keys@.map_values(|k: String| k@) =~= all.take(1).filter(|k: Seq<char>| k.len() > 0));
        }
    }
    let mut i: usize = 0;
    while i < identity.aliases.len()
        invariant
            all == seq![text_key(identity.name@, false)] + identity.aliases@.map_values(
                |a: CharacterAlias| text_key(a.text@, false),
            ),
            0 <= i <= identity.aliases@.len(),
            keys@.map_values(|k: String| k@) == all.take(i + 1).filter(|k: Seq<char>| k.len() > 0),
        decreases identity.aliases@.len() - i,
    {
        let key = normalized_text_key(identity.aliases[i].text.as_str());
        proof {
            reveal(Seq::filter);
            assert(all.take(i + 2).drop_last() =~= all.take(i + 1));
            assert(all.take(i + 2).last() == key@);
        }
        if !key.as_str().is_empty() {
            let ghost before = keys@;
            keys.push(key);
            proof {
                assert(keys@.map_values(|k: String| k@) =~= before.map_values(|k: String| k@).push(key@));
            }
        }
        i += 1;
    }
    proof {
        assert(all.take(i + 1) =~= all);
    }
    keys
}

/// Some evidence quote is not blank.
pub open spec fn has_quoted_evidence(evidence: Seq<StoryEvidenceSpan>) -> bool {
    exists|i: int|
        0 <= i < evidence.len() && match (#[trigger] evidence[i]).quote {
            Some(q) => trim(q@).len() > 0,
            None => false,
        }
}

pub fn field_value_has_quoted_evidence(value: &StoryExtractionFieldValuePayload) -> (r: bool)
    ensures
        r == has_quoted_evidence(value.evidence@),
{
    let mut i: usize = 0;
    while i < value.evidence.len()
        invariant
            0 <= i <= value.evidence@.len(),
            forall|k: int|
                0 <= k < i ==> !match (#[trigger] value.evidence@[k]).quote {
                    Some(q) => trim(q@).len() > 0,
                    None => false,
                },
        decreases value.evidence@.len() - i,
    {
        match &value.evidence[i].quote {
            Some(q) => {
                if !trim_str(q.as_str()).as_str().is_empty() {
                    return true;
                }
            },
            None => {},
        }
        i += 1;
    }
    false
}

/// Some evidence quote, trimmed, holds both marks `[[` and `]]`.
pub open spec fn has_target_marker(evidence: Seq<StoryEvidenceSpan>) -> bool {
    exists|i: int|
        0 <= i < evidence.len() && match (#[trigger] evidence[i]).quote {
            Some(q) => contains_seq(trim(q@), "[["@) && contains_seq(trim(q@), "]]"@),
            None => false,
        }
}

pub fn field_value_has_target_marker(value: &StoryExtractionFieldValuePayload) -> (r: bool)
    ensures
        r == has_target_marker(value.evidence@),
{
    let open_mark = chars_of("[[");
    let close_mark = chars_of("]]");
    let mut i: usize = 0;
    while i < value.evidence.len()
        invariant
            open_mark@ == "[["@,
            close_mark@ == "]]"@,
            0 <= i <= value.evidence@.len(),
            forall|k: int|
                0 <= k < i ==> !match (#[trigger] value.evidence@[k]).quote {
                    Some(q) => contains_seq(trim(q@), "[["@) && contains_seq(trim(q@), "]]"@),
                    None => false,
                },
        decreases value.evidence@.len() - i,
    {
        match &value.evidence[i].quote {
            Some(q) => {
                let quote = chars_of(trim_str(q.as_str()).as_str());
                if contains_chars(&quote, &open_mark) && contains_chars(&quote, &close_mark) {
                    return true;
                }
            },
            None => {},
        }
        i += 1;
    }
    false
}

/// `s` with every `[[` and `]]` taken out, left to right.
pub open spec fn strip_marks(s: Seq<char>, mark: Seq<char>) -> Seq<char>
    decreases s.len(),
{
    if s.len() == 0 || mark.len() == 0 {
        s
    } else if has_prefix(s, mark) {
        strip_marks(s.skip(mark.len() as int), mark)
    } else {
        seq![s[0]] + strip_marks(s.drop_first(), mark)
    }
}

/// The quote without field markers.
pub open spec fn unmarked(q: Seq<char>) -> Seq<char> {
    if contains_seq(q, "[["@) || contains_seq(q, "]]"@) {
        strip_marks(strip_marks(q, "[["@), "]]"@)
    } else {
        q
    }
}

fn remove_mark(s: &Vec<char>, mark: &Vec<char>) -> (r: Vec<char>)
    requires
        mark@.len() == 2,
    ensures
        r@ == strip_marks(s@, mark@),
{
    let mut out: Vec<char> = Vec::new();
    let mut i: usize = 0;
    proof {
        assert(strip_marks(s@, mark@) == out@ + strip_marks(s@.skip(0), mark@)) by {
            assert(s@.skip(0) =~= s@);
        }
    }
    while i < s.len()
        invariant
            mark@.len() == 2,
            0 <= i <= s@.len(),
            strip_marks(s@, mark@) == out@ + strip_marks(s@.skip(i as int), mark@),
        decreases s@.len() - i,
    {
        let ghost rest = s@.skip(i as int);
        if i + 1 < s.len() && s[i] == mark[0] && s[i + 1] == mark[1] {
            proof {
                assert(rest.subrange(0, 2) =~= mark@);
                assert(has_prefix(rest, mark@));
                assert(rest.skip(2) =~= s@.skip(i + 2));
            }
            i += 2;
        } else {
            proof {
                if has_prefix(rest, mark@) {
                    assert(rest.subrange(0, 2)[0] == s@[i as int]);
                    assert(rest.subrange(0, 2)[1] == s@[i + 1]);
                }
                assert(rest.drop_first() =~= s@.skip(i + 1));
                assert(out@.push(s@[i as int]) + strip_marks(s@.skip(i + 1), mark@) =~= out@ + (seq![
                    rest[0],
                ] + strip_marks(rest.drop_first(), mark@)));
            }
            out.push(s[i]);
            i += 1;
        }
    }
    proof {
        assert(s@.skip(i as int).len() == 0);
        assert(out@ + Seq::<char>::empty() =~= out@);
    }
    out
}

pub fn strip_character_field_markers_from_evidence(value: &mut StoryExtractionFieldValuePayload)
    ensures
        final(value).value == old(value).value,
        final(value).related_character == old(value).related_character,
        final(value).relationship_type == old(value).relationship_type,
        final(value).relationship_label == old(value).relationship_label,
        final(value).relationship_direction == old(value).relationship_direction,
        final(value).evidence@.len() == old(value).evidence@.len(),
        forall|k: int|
            0 <= k < final(value).evidence@.len() ==> {
                let e = #[trigger] final(value).evidence@[k];
                let o = old(value).evidence@[k];
                &&& e.chapter_num == o.chapter_num
                &&& e.start_char == o.start_char
                &&& e.end_char == o.end_char
                &&& e.reason == o.reason
                &&& match o.quote {
                    Some(q) => e.quote matches Some(n) && n@ == unmarked(q@),
                    None => e.quote is None,
                }
            },
{
    let open_mark = chars_of("[[");
    let close_mark = chars_of("]]");
    proof {
        reveal_strlit("[[");
        reveal_strlit("]]");
    }
    let ghost start = value.evidence@;
    let mut i: usize = 0;
    while i < value.evidence.len()
        invariant
            open_mark@ == "[["@,
            close_mark@ == "]]"@,
            open_mark@.len() == 2,
            close_mark@.len() == 2,
            value.value == old(value).value,
            value.related_character == old(value).related_character,
            value.relationship_type == old(value).relationship_type,
            value.relationship_label == old(value).relationship_label,
            value.relationship_direction == old(value).relationship_direction,
            start == old(value).evidence@,
            value.evidence@.len() == start.len(),
            0 <= i <= start.len(),
            forall|k: int| i <= k < start.len() ==> value.evidence@[k] == start[k],
            forall|k: int|
                0 <= k < i ==> {
                    let e = #[trigger] value.evidence@[k];
                    let o = start[k];
                    &&& e.chapter_num == o.chapter_num
                    &&& e.start_char == o.start_char
                    &&& e.end_char == o.end_char
                    &&& e.reason == o.reason
                    &&& match o.quote {
                        Some(q) => e.quote matches Some(n) && n@ == unmarked(q@),
                        None => e.quote is None,
                    }
                },
        decreases start.len() - i,
    {
        let mut span = value.evidence.remove(i);
        let quote = match &span.quote {
            Some(q) => {
                let cs = chars_of(q.as_str());
                if contains_chars(&cs, &open_mark) || contains_chars(&cs, &close_mark) {
                    let once = remove_mark(&cs, &open_mark);
                    let twice = remove_mark(&once, &close_mark);
                    Some(string_of(&twice))
                } else {
                    Some(q.clone())
                }
            },
            None => None,
        };
        span.quote = quote;
        value.evidence.insert(i, span);
        i += 1;
    }
}

/// The value's distinctive tokens, each once.
pub open spec fn distinct(s: Seq<Seq<char>>) -> Seq<Seq<char>>
    decreases s.len(),
{
    if s.len() == 0 {
        seq![]
    } else if distinct(s.drop_last()).contains(s.last()) {
        distinct(s.drop_last())
    } else {
        distinct(s.drop_last()).push(s.last())
    }
}

/// The number of tokens of `tokens` that occur in `others`.
pub open spec fn overlap_count(tokens: Seq<Seq<char>>, others: Seq<Seq<char>>) -> nat
    decreases tokens.len(),
{
    if tokens.len() == 0 {
        0
    } else if others.contains(tokens.last()) {
        overlap_count(tokens.drop_last(), others) + 1
    } else {
        overlap_count(tokens.drop_last(), others)
    }
}

/// A quote grounds a value when it shares all of the value's tokens (for a
/// value of at most two), else at least three fifths of them.
pub open spec fn quote_grounds(value_tokens: Seq<Seq<char>>, quote: Seq<char>) -> bool {
    let quote_tokens = distinct(distinctive_tokens(quote));
    let overlap = overlap_count(value_tokens, quote_tokens);
    &&& quote_tokens.len() > 0
    &&& if value_tokens.len() <= 2 {
        overlap == value_tokens.len()
    } else {
        overlap * 5 >= value_tokens.len() * 3
    }
}

/// The value's tokens are there, and some quote grounds them.
pub open spec fn grounded_in_quotes(value: Seq<char>, evidence: Seq<StoryEvidenceSpan>) -> bool {
    let value_tokens = distinct(distinctive_tokens(value));
    &&& value_tokens.len() > 0
    &&& exists|i: int|
        0 <= i < evidence.len() && match (#[trigger] evidence[i]).quote {
            Some(q) => quote_grounds(value_tokens, q@),
            None => false,
        }
}

fn list_has(keys: &Vec<String>, key: &str) -> (r: bool)
    ensures
        r == keys@.map_values(|k: String| k@).contains(key@),
{
    let ghost kv = keys@.map_values(|k: String| k@);
    let mut i: usize = 0;
    while i < keys.len()
        invariant
            kv == keys@.map_values(|k: String| k@),
            0 <= i <= keys@.len(),
            forall|j: int| 0 <= j < i ==> kv[j] != key@,
        decreases keys@.len() - i,
    {
        if str_eq(keys[i].as_str(), key) {
            assert(kv[i as int] == key@);
            return true;
        }
        i += 1;
    }
    false
}

/// The distinctive tokens of a value, each once.
pub fn normalized_field_value_tokens(value: &str) -> (r: Vec<String>)
    ensures
        r@.map_values(|t: String| t@) == distinct(distinctive_tokens(value@)),
{
    let tokens = distinctive_surface_tokens(value);
    let ghost tv = tokens@.map_values(|t: String| t@);
    let mut out: Vec<String> = Vec::new();
    let mut i: usize = 0;
    proof {
        assert(tv.take(0) =~= Seq::<Seq<char>>::empty());
        assert(out@.map_values(|t: String| t@) =~= Seq::<Seq<char>>::empty());
    }
    while i < tokens.len()
        invariant
            tv == tokens@.map_values(|t: String| t@),
            tv == distinctive_tokens(value@),
            0 <= i <= tokens@.len(),
            out@.map_values(|t: String| t@) == distinct(tv.take(i as int)),
        decreases tokens@.len() - i,
    {
        proof {
            assert(tv.take(i + 1).drop_last() =~= tv.take(i as int));
            assert(tv.take(i + 1).last() == tokens@[i as int]@);
        }
        if !list_has(&out, tokens[i].as_str()) {
            let ghost before = out@;
            out.push(tokens[i].clone());
            proof {
                assert(out@.map_values(|t: String| t@) =~= before.map_values(|t: String| t@).push(
                    tokens@[i as int]@,
                ));
            }
        }
        i += 1;
    }
    proof {
        assert(tv.take(i as int) =~= tv);
    }
    out
}

fn count_overlap(tokens: &Vec<String>, others: &Vec<String>) -> (r: usize)
    ensures
        r == overlap_count(tokens@.map_values(|t: String| t@), others@.map_values(|t: String| t@)),
        r <= tokens@.len(),
{
    let ghost tv = tokens@.map_values(|t: String| t@);
    let mut count: usize = 0;
    let mut i: usize = 0;
    while i < tokens.len()
        invariant
            tv == tokens@.map_values(|t: String| t@),
            0 <= i <= tokens@.len(),
            count == overlap_count(tv.take(i as int), others@.map_values(|t: String| t@)),
            count <= i,
        decreases tokens@.len() - i,
    {
        proof {
            assert(tv.take(i + 1).drop_last() =~= tv.take(i as int));
            assert(tv.take(i + 1).last() == tokens@[i as int]@);
        }
        if list_has(others, tokens[i].as_str()) {
            count += 1;
        }
        i += 1;
    }
    proof {
        assert(tv.take(i as int) =~= tv);
    }
    count
}

pub fn field_value_is_grounded_in_quoted_evidence(value: &StoryExtractionFieldValuePayload) -> (r: bool)
    ensures
        r == grounded_in_quotes(value.value@, value.evidence@),
{
    let value_tokens = normalized_field_value_tokens(value.value.as_str());
    let ghost vt = value_tokens@.map_values(|t: String| t@);
    if value_tokens.len() == 0 {
        return false;
    }
    let mut i: usize = 0;
    while i < value.evidence.len()
        invariant
            vt == value_tokens@.map_values(|t: String| t@),
            vt == distinct(distinctive_tokens(value.value@)),
            vt.len() > 0,
            0 <= i <= value.evidence@.len(),
            forall|k: int|
                0 <= k < i ==> !match (#[trigger] value.evidence@[k]).quote {
                    Some(q) => quote_grounds(vt, q@),
                    None => false,
                },
        decreases value.evidence@.len() - i,
    {
        match &value.evidence[i].quote {
            Some(q) => {
                let quote_tokens = normalized_field_value_tokens(q.as_str());
                if quote_tokens.len() > 0 {
                    let overlap = count_overlap(&value_tokens, &quote_tokens);
                    let n = value_tokens.len();
                    let grounded = if n <= 2 {
                        overlap == n
                    } else {
                        overlap as u128 * 5 >= n as u128 * 3
                    };
                    if grounded {
                        return true;
                    }
                }
            },
            None => {},
        }
        i += 1;
    }
    false
}

/// A verification's owner, when it names one, is one of the identity's surfaces.
pub open spec fn owner_matches(identity: CharacterIdentity, owner_name: Option<Seq<char>>) -> bool {
    match owner_name {
        Some(n) => if trim(n).len() == 0 {
            true
        } else {
            let surfaces = surfaces_scan(identity_surface_items(identity)).0;
            exists|k: int| 0 <= k < surfaces.len() && text_key(#[trigger] surfaces[k].0, false) == text_key(trim(n), false)
        },
        None => true,
    }
}

pub fn field_value_verification_owner_matches_identity(identity: &CharacterIdentity, owner_name: &Option<String>) -> (r:
    bool)
    ensures
        r == owner_matches(
            *identity,
            match owner_name {
                Some(n) => Some(n@),
                None => None,
            },
        ),
{
    let owner = match owner_name {
        Some(n) => trim_str(n.as_str()),
        None => return true,
    };
    if owner.as_str().is_empty() {
        return true;
    }
    let owner_key = normalized_text_key(owner.as_str());
    let surfaces = character_identity_surfaces(identity);
    let ghost sv = surface_pair_views(surfaces@);
    let mut i: usize = 0;
    while i < surfaces.len()
        invariant
            sv == surface_pair_views(surfaces@),
            sv == surfaces_scan(identity_surface_items(*identity)).0,
            match owner_name {
                Some(n) => owner_key@ == text_key(trim(n@), false) && trim(n@).len() > 0,
                None => false,
            },
            0 <= i <= surfaces@.len(),
            forall|k: int| 0 <= k < i ==> text_key(#[trigger] sv[k].0, false) != owner_key@,
        decreases surfaces@.len() - i,
    {
        assert(sv[i as int].0 == surfaces@[i as int].0@);
        if str_eq(normalized_text_key(surfaces[i].0.as_str()).as_str(), owner_key.as_str()) {
            return true;
        }
        i += 1;
    }
    false
}

} // verus!
