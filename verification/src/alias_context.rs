//! The context around quoted alias candidates, and the evidence rules that let
//! an alias be given to its owner.
use vstd::prelude::*;
use crate::characters::{
    character_identity_surfaces, identity_surface_items, surface_pair_views, surfaces_scan,
    CharacterIdentity,
};
use crate::domain::StoryEvidenceSpan;
use crate::keys::{normalized_folded_text_key, normalized_text_key, text_key};
use crate::occurrences::{find_surface_occurrences, occurrence_views, surface_occurrences};
use crate::surfaces::{clean_character_surface, clean_surface, quoted_alias_spans, quoted_spans_from};
use crate::text::{chars_of, contains_chars, contains_seq, split_on, split_str, str_eq, string_of_range};

verus! {

// ------------------------------------------------------------------------
// Sentences around a quote.
// ------------------------------------------------------------------------
/// A char that ends a sentence for the context of a quote.
pub open spec fn is_sentence_boundary(c: char) -> bool {
    c == '.' || c == '!' || c == '?' || c == '\u{3002}' || c == '\u{ff01}' || c == '\u{ff1f}' || c
        == '\n' || c == '\r'
}

pub fn is_sentence_boundary_for_quote_context(c: char) -> (r: bool)
    ensures
        r == is_sentence_boundary(c),
{
    c == '.' || c == '!' || c == '?' || c == '\u{3002}' || c == '\u{ff01}' || c == '\u{ff1f}' || c
        == '\n' || c == '\r'
}

pub open spec fn clamp_index(i: int, len: int) -> int {
    if i < 0 {
        0
    } else if i > len {
        len
    } else {
        i
    }
}

/// Moving left from `index` to just after a sentence boundary, or to the start.
pub open spec fn start_scan(chars: Seq<char>, index: int) -> int
    decreases index,
{
    if index <= 0 {
        0
    } else if is_sentence_boundary(chars[index - 1]) {
        index
    } else {
        start_scan(chars, index - 1)
    }
}

/// Moving right from `index` past the next sentence boundary, or to the end.
pub open spec fn end_scan(chars: Seq<char>, index: int) -> int
    decreases chars.len() - index,
{
    if index >= chars.len() {
        index
    } else if is_sentence_boundary(chars[index]) {
        index + 1
    } else {
        end_scan(chars, index + 1)
    }
}

pub fn sentence_start_before(text: &str, char_index: i64) -> (r: i64)
    requires
        text@.len() < i64::MAX,
    ensures
        r as int == start_scan(text@, clamp_index(char_index as int, text@.len() as int)),
{
    let chars = chars_of(text);
    let len = chars.len() as i64;
    let mut index: usize = if char_index < 0 {
        0
    } else if char_index > len {
        chars.len()
    } else {
        char_index as usize
    };
    while index > 0
        invariant
            chars@ == text@,
            chars@.len() < i64::MAX,
            0 <= index <= chars@.len(),
            start_scan(text@, clamp_index(char_index as int, text@.len() as int)) == start_scan(
                text@,
                index as int,
            ),
        decreases index,
    {
        if is_sentence_boundary_for_quote_context(chars[index - 1]) {
            return index as i64;
        }
        index -= 1;
    }
    index as i64
}

pub fn sentence_end_after(text: &str, char_index: i64) -> (r: i64)
    requires
        text@.len() < i64::MAX,
    ensures
        r as int == end_scan(text@, clamp_index(char_index as int, text@.len() as int)),
{
    let chars = chars_of(text);
    let len = chars.len() as i64;
    let mut index: usize = if char_index < 0 {
        0
    } else if char_index > len {
        chars.len()
    } else {
        char_index as usize
    };
    while index < chars.len()
        invariant
            chars@ == text@,
            chars@.len() < i64::MAX,
            0 <= index <= chars@.len(),
            end_scan(text@, clamp_index(char_index as int, text@.len() as int)) == end_scan(
                text@,
                index as int,
            ),
        decreases chars@.len() - index,
    {
        let current = chars[index];
        index += 1;
        if is_sentence_boundary_for_quote_context(current) {
            return index as i64;
        }
    }
    index as i64
}

/// The chars from `start_char` to `end_char`, both clamped to the text.
pub open spec fn char_slice(text: Seq<char>, start_char: int, end_char: int) -> Seq<char> {
    let start = if start_char < 0 {
        0
    } else {
        start_char
    };
    let end = if end_char < start_char {
        start
    } else if end_char < 0 {
        0
    } else {
        end_char
    };
    text.subrange(
        if start > text.len() {
            text.len() as int
        } else {
            start
        },
        if end > text.len() {
            text.len() as int
        } else {
            end
        },
    )
}

pub fn slice_text_by_char_range(text: &str, start_char: i64, end_char: i64) -> (r: String)
    ensures
        r@ == char_slice(text@, start_char as int, end_char as int),
{
    let chars = chars_of(text);
    let start: usize = if start_char < 0 {
        0
    } else if start_char as u64 > chars.len() as u64 {
        chars.len()
    } else {
        start_char as usize
    };
    let end_value: i64 = if end_char < start_char {
        if start_char < 0 {
            0
        } else {
            start_char
        }
    } else if end_char < 0 {
        0
    } else {
        end_char
    };
    let end: usize = if end_value as u64 > chars.len() as u64 {
        chars.len()
    } else {
        end_value as usize
    };
    string_of_range(&chars, start, end)
}

// ------------------------------------------------------------------------
// Names found in a text.
// ------------------------------------------------------------------------
/// One of the identity's surfaces occurs in `text` on word boundaries.
pub open spec fn identity_found_in(identity: CharacterIdentity, text: Seq<char>) -> bool {
    let surfaces = surfaces_scan(identity_surface_items(identity)).0;
    exists|k: int| 0 <= k < surfaces.len() && surface_occurrences(text, #[trigger] surfaces[k].0).len() > 0
}

fn identity_appears(identity: &CharacterIdentity, text: &str) -> (r: bool)
    requires
        text@.len() < i64::MAX,
    ensures
        r == identity_found_in(*identity, text@),
{
    let surfaces = character_identity_surfaces(identity);
    let ghost sv = surface_pair_views(surfaces@);
    let mut i: usize = 0;
    while i < surfaces.len()
        invariant
            text@.len() < i64::MAX,
            sv == surface_pair_views(surfaces@),
            sv == surfaces_scan(identity_surface_items(*identity)).0,
            0 <= i <= surfaces@.len(),
            forall|k: int| 0 <= k < i ==> surface_occurrences(text@, #[trigger] sv[k].0).len() == 0,
        decreases surfaces@.len() - i,
    {
        let found = find_surface_occurrences(text, surfaces[i].0.as_str(), "alias_owner_candidate", false);
        assert(sv[i as int].0 == surfaces@[i as int].0@);
        if found.len() > 0 {
            return true;
        }
        i += 1;
    }
    false
}

/// The names of the identities found in `text`, one per name key, in order.
pub open spec fn names_in_text_scan(identities: Seq<CharacterIdentity>, text: Seq<char>) -> (Seq<Seq<char>>, Seq<
    Seq<char>,
>)
    decreases identities.len(),
{
    if identities.len() == 0 {
        (seq![], seq![])
    } else {
        let (names, seen) = names_in_text_scan(identities.drop_last(), text);
        let identity = identities.last();
        let key = text_key(identity.name@, false);
        if key.len() == 0 || seen.contains(key) || !identity_found_in(identity, text) {
            (names, seen)
        } else {
            (names.push(identity.name@), seen.push(key))
        }
    }
}

fn list_contains(keys: &Vec<String>, key: &str) -> (r: bool)
    ensures
        r == keys@.map_values(|k: String| k@).contains(key@),
{
    let ghost kv = keys@.map_values(|k: String| k@);
    let mut i: usize = 0;
    while i < keys.len()
        invariant
            kv == keys@.map_values(|k: String| k@),
            0 <= i <= keys@.len(),
            forall|j: int| 0 <= j < i ==> kv[j] != key@,
        decreases keys@.len() - i,
    {
        if str_eq(keys[i].as_str(), key) {
            assert(kv[i as int] == key@);
            return true;
        }
        i += 1;
    }
    false
}

pub fn identity_names_in_text(identities: &Vec<CharacterIdentity>, text: &str) -> (r: Vec<String>)
    requires
        text@.len() < i64::MAX,
    ensures
        r@.map_values(|n: String| n@) == names_in_text_scan(identities@, text@).0,
{
    let mut names: Vec<String> = Vec::new();
    let mut seen: Vec<String> = Vec::new();
    let mut i: usize = 0;
    proof {
        assert(identities@.take(0) =~= Seq::<CharacterIdentity>::empty());
        assert(names@.map_values(|n: String| n@) =~= Seq::<Seq<char>>::empty());
        assert(seen@.map_values(|n: String| n@) =~= Seq::<Seq<char>>::empty());
    }
    while i < identities.len()
        invariant
            text@.len() < i64::MAX,
            0 <= i <= identities@.len(),
            (names@.map_values(|n: String| n@), seen@.map_values(|n: String| n@)) == names_in_text_scan(
                identities@.take(i as int),
                text@,
            ),
        decreases identities@.len() - i,
    {
        proof {
            assert(identities@.take(i + 1).drop_last() =~= identities@.take(i as int));
            assert(identities@.take(i + 1).last() == identities@[i as int]);
        }
        let identity = &identities[i];
        let key = normalized_text_key(identity.name.as_str());
        if !key.as_str().is_empty() && !list_contains(&seen, key.as_str()) && identity_appears(
            identity,
            text,
        ) {
            let ghost nb = names@;
            let ghost sb = seen@;
            names.push(identity.name.clone());
            seen.push(key);
            proof {
                assert(names@.map_values(|n: String| n@) =~= nb.map_values(|n: String| n@).push(
                    identity.name@,
                ));
                assert(seen@.map_values(|n: String| n@) =~= sb.map_values(|n: String| n@).push(key@));
            }
        }
        i += 1;
    }
    proof {
        assert(identities@.take(i as int) =~= identities@);
    }
    names
}

// ------------------------------------------------------------------------
// The identity named last before a quote.
// ------------------------------------------------------------------------
/// The best (identity, end) so far after an occurrence ending at `end`: an
/// occurrence replaces the best only when it ends strictly later.
pub open spec fn best_step(best: Option<(int, int)>, index: int, end: int) -> Option<(int, int)> {
    match best {
        Some((i, best_end)) => if end <= best_end {
            Some((i, best_end))
        } else {
            Some((index, end))
        },
        None => Some((index, end)),
    }
}

pub open spec fn occurrences_best(best: Option<(int, int)>, index: int, occs: Seq<(int, int, Seq<char>)>) -> Option<
    (int, int),
>
    decreases occs.len(),
{
    if occs.len() == 0 {
        best
    } else {
        best_step(occurrences_best(best, index, occs.drop_last()), index, occs.last().1)
    }
}

pub open spec fn surfaces_best(
    best: Option<(int, int)>,
    index: int,
    surfaces: Seq<(Seq<char>, Seq<char>)>,
    text: Seq<char>,
) -> Option<(int, int)>
    decreases surfaces.len(),
{
    if surfaces.len() == 0 {
        best
    } else {
        occurrences_best(
            surfaces_best(best, index, surfaces.drop_last(), text),
            index,
            surface_occurrences(text, surfaces.last().0),
        )
    }
}

pub open spec fn identities_best(identities: Seq<CharacterIdentity>, text: Seq<char>) -> Option<(int, int)>
    decreases identities.len(),
{
    if identities.len() == 0 {
        None
    } else {
        surfaces_best(
            identities_best(identities.drop_last(), text),
            identities.len() - 1,
            surfaces_scan(identity_surface_items(identities.last())).0,
            text,
        )
    }
}

/// The identity whose surface ends last in the text before a quote (the first
/// such, in order of identities, surfaces and occurrences).
pub open spec fn nearest_identity(identities: Seq<CharacterIdentity>, text: Seq<char>) -> Option<int> {
    match identities_best(identities, text) {
        Some((i, _)) => Some(i),
        None => None,
    }
}

pub fn nearest_identity_before_alias_quote(identities: &Vec<CharacterIdentity>, before_quote: &str) -> (r:
    Option<usize>)
    requires
        before_quote@.len() < i64::MAX,
    ensures
        match r {
            Some(i) => nearest_identity(identities@, before_quote@) == Some(i as int),
            None => nearest_identity(identities@, before_quote@) is None,
        },
{
    let mut best: Option<(usize, i64)> = None;
    let mut i: usize = 0;
    proof {
        assert(identities@.take(0) =~= Seq::<CharacterIdentity>::empty());
    }
    while i < identities.len()
        invariant
            before_quote@.len() < i64::MAX,
            0 <= i <= identities@.len(),
            match best {
                Some((b, e)) => b < i && identities_best(identities@.take(i as int), before_quote@)
                    == Some((b as int, e as int)),
                None => identities_best(identities@.take(i as int), before_quote@) is None,
            },
        decreases identities@.len() - i,
    {
        proof {
            assert(identities@.take(i + 1).drop_last() =~= identities@.take(i as int));
            assert(identities@.take(i + 1).last() == identities@[i as int]);
        }
        let ghost start_best = identities_best(identities@.take(i as int), before_quote@);
        let surfaces = character_identity_surfaces(&identities[i]);
        let ghost sv = surface_pair_views(surfaces@);
        let mut s: usize = 0;
        proof {
            assert(sv.take(0) =~= Seq::<(Seq<char>, Seq<char>)>::empty());
        }
        while s < surfaces.len()
            invariant
                before_quote@.len() < i64::MAX,
                0 <= i < identities@.len(),
                sv == surface_pair_views(surfaces@),
                0 <= s <= surfaces@.len(),
                match best {
                    Some((b, e)) => b <= i && surfaces_best(start_best, i as int, sv.take(s as int), before_quote@)
                        == Some((b as int, e as int)),
                    None => surfaces_best(start_best, i as int, sv.take(s as int), before_quote@) is None,
                },
            decreases surfaces@.len() - s,
        {
            proof {
                assert(sv.take(s + 1).drop_last() =~= sv.take(s as int));
                assert(sv.take(s + 1).last() == sv[s as int]);
                assert(sv[s as int].0 == surfaces@[s as int].0@);
            }
            let ghost surface_start = surfaces_best(start_best, i as int, sv.take(s as int), before_quote@);
            let occurrences = find_surface_occurrences(
                before_quote,
                surfaces[s].0.as_str(),
                "alias_owner_candidate",
                false,
            );
            let ghost ov = occurrence_views(occurrences@);
            let mut k: usize = 0;
            proof {
                assert(ov.take(0) =~= Seq::<(int, int, Seq<char>)>::empty());
            }
            while k < occurrences.len()
                invariant
                    0 <= i < identities@.len(),
                    ov == occurrence_views(occurrences@),
                    0 <= k <= occurrences@.len(),
                    match best {
                        Some((b, e)) => b <= i && occurrences_best(surface_start, i as int, ov.take(k as int))
                            == Some((b as int, e as int)),
                        None => occurrences_best(surface_start, i as int, ov.take(k as int)) is None,
                    },
                decreases occurrences@.len() - k,
            {
                proof {
                    assert(ov.take(k + 1).drop_last() =~= ov.take(k as int));
                    assert(ov.take(k + 1).last() == ov[k as int]);
                }
                let end = occurrences[k].end_char;
                match best {
                    Some((_, best_end)) => {
                        if end > best_end {
                            best = Some((i, end));
                        }
                    },
                    None => {
                        best = Some((i, end));
                    },
                }
                k += 1;
            }
            proof {
                assert(ov.take(k as int) =~= ov);
            }
            s += 1;
        }
        proof {
            assert(sv.take(s as int) =~= sv);
        }
        i += 1;
    }
    proof {
        assert(identities@.take(i as int) =~= identities@);
    }
    match best {
        Some((b, _)) => Some(b),
        None => None,
    }
}

// ------------------------------------------------------------------------
// Quoted alias candidates with their context.
// ------------------------------------------------------------------------
/// A quoted surface that may be an alias, with the sentence it stands in, the
/// names found there, and the identity named last before the quote.
#[derive(Debug, Clone)]
pub struct QuotedAliasCandidateContext {
    pub surface: String,
    pub context: String,
    pub nearby_identity_names: Vec<String>,
    pub nearest_identity_before_quote: Option<String>,
}

/// A candidate as the specifications see it.
pub type ContextView = (Seq<char>, Seq<char>, Seq<Seq<char>>, Option<Seq<char>>);

pub open spec fn context_view(c: QuotedAliasCandidateContext) -> ContextView {
    (
        c.surface@,
        c.context@,
        c.nearby_identity_names@.map_values(|n: String| n@),
        match c.nearest_identity_before_quote {
            Some(n) => Some(n@),
            None => None,
        },
    )
}

pub open spec fn context_views(s: Seq<QuotedAliasCandidateContext>) -> Seq<ContextView> {
    s.map_values(|c: QuotedAliasCandidateContext| context_view(c))
}

/// The candidate a quoted span gives, if any: its cleaned surface, when not
/// empty, in a sentence that names some identity.
pub open spec fn span_context(
    identities: Seq<CharacterIdentity>,
    text: Seq<char>,
    span: (int, int, Seq<char>),
) -> Option<ContextView> {
    let surface = clean_surface(span.2);
    let start = start_scan(text, clamp_index(span.0, text.len() as int));
    let end = end_scan(text, clamp_index(span.1, text.len() as int));
    let context = char_slice(text, start, end);
    let names = names_in_text_scan(identities, context).0;
    if surface.len() == 0 || names.len() == 0 {
        None
    } else {
        let before = char_slice(text, start, span.0);
        Some(
            (
                surface,
                context,
                names,
                match nearest_identity(identities, before) {
                    Some(i) => Some(identities[i].name@),
                    None => None,
                },
            ),
        )
    }
}

pub open spec fn contexts_scan(
    identities: Seq<CharacterIdentity>,
    text: Seq<char>,
    spans: Seq<(int, int, Seq<char>)>,
) -> Seq<ContextView>
    decreases spans.len(),
{
    if spans.len() == 0 {
        seq![]
    } else {
        let prev = contexts_scan(identities, text, spans.drop_last());
        match span_context(identities, text, spans.last()) {
            Some(c) => prev.push(c),
            None => prev,
        }
    }
}

proof fn lemma_char_slice_len(text: Seq<char>, start: int, end: int)
    ensures
        char_slice(text, start, end).len() <= text.len(),
{
}

proof fn lemma_nearest_in_range(identities: Seq<CharacterIdentity>, text: Seq<char>)
    ensures
        identities_best(identities, text) matches Some((i, _)) ==> 0 <= i < identities.len(),
    decreases identities.len(),
{
    if identities.len() > 0 {
        lemma_nearest_in_range(identities.drop_last(), text);
        lemma_surfaces_best_range(
            identities_best(identities.drop_last(), text),
            identities.len() - 1,
            surfaces_scan(identity_surface_items(identities.last())).0,
            text,
            identities.len() - 1,
        );
    }
}

proof fn lemma_surfaces_best_range(
    best: Option<(int, int)>,
    index: int,
    surfaces: Seq<(Seq<char>, Seq<char>)>,
    text: Seq<char>,
    bound: int,
)
    requires
        0 <= index <= bound,
        best matches Some((i, _)) ==> 0 <= i <= bound,
    ensures
        surfaces_best(best, index, surfaces, text) matches Some((i, _)) ==> 0 <= i <= bound,
    decreases surfaces.len(),
{
    if surfaces.len() > 0 {
        lemma_surfaces_best_range(best, index, surfaces.drop_last(), text, bound);
        lemma_occurrences_best_range(
            surfaces_best(best, index, surfaces.drop_last(), text),
            index,
            surface_occurrences(text, surfaces.last().0),
            bound,
        );
    }
}

proof fn lemma_occurrences_best_range(
    best: Option<(int, int)>,
    index: int,
    occs: Seq<(int, int, Seq<char>)>,
    bound: int,
)
    requires
        0 <= index <= bound,
        best matches Some((i, _)) ==> 0 <= i <= bound,
    ensures
        occurrences_best(best, index, occs) matches Some((i, _)) ==> 0 <= i <= bound,
    decreases occs.len(),
{
    if occs.len() > 0 {
        lemma_occurrences_best_range(best, index, occs.drop_last(), bound);
    }
}

pub fn quoted_alias_candidate_context(identities: &Vec<CharacterIdentity>, chunk_text: &str) -> (r: Vec<
    QuotedAliasCandidateContext,
>)
    requires
        chunk_text@.len() < i64::MAX,
    ensures
        context_views(r@) == contexts_scan(identities@, chunk_text@, quoted_spans_from(chunk_text@, 0)),
{
    let spans = quoted_alias_spans(chunk_text);
    let ghost sv = crate::surfaces::span_views(spans@);
    let mut out: Vec<QuotedAliasCandidateContext> = Vec::new();
    let mut i: usize = 0;
    proof {
        assert(sv.take(0) =~= Seq::<(int, int, Seq<char>)>::empty());
        assert(context_views(out@) =~= Seq::<ContextView>::empty());
    }
    while i < spans.len()
        invariant
            chunk_text@.len() < i64::MAX,
            sv == crate::surfaces::span_views(spans@),
            sv == quoted_spans_from(chunk_text@, 0),
            0 <= i <= spans@.len(),
            context_views(out@) == contexts_scan(identities@, chunk_text@, sv.take(i as int)),
        decreases spans@.len() - i,
    {
        proof {
            assert(sv.take(i + 1).drop_last() =~= sv.take(i as int));
            assert(sv.take(i + 1).last() == sv[i as int]);
            assert(sv[i as int] == (
                spans@[i as int].start_char as int,
                spans@[i as int].end_char as int,
                spans@[i as int].text@,
            ));
        }
        let span = &spans[i];
        let surface = clean_character_surface(span.text.as_str());
        if !surface.as_str().is_empty() {
            let sentence_start = sentence_start_before(chunk_text, span.start_char);
            let sentence_end = sentence_end_after(chunk_text, span.end_char);
            let context = slice_text_by_char_range(chunk_text, sentence_start, sentence_end);
            proof {
                lemma_char_slice_len(chunk_text@, sentence_start as int, sentence_end as int);
            }
            let names = identity_names_in_text(identities, context.as_str());
            if names.len() > 0 {
                let before_quote = slice_text_by_char_range(chunk_text, sentence_start, span.start_char);
                proof {
                    lemma_char_slice_len(chunk_text@, sentence_start as int, span.start_char as int);
                    lemma_nearest_in_range(identities@, before_quote@);
                }
                let nearest = match nearest_identity_before_alias_quote(identities, before_quote.as_str()) {
                    Some(index) => Some(identities[index].name.clone()),
                    None => None,
                };
                let candidate = QuotedAliasCandidateContext {
                    surface,
                    context,
                    nearby_identity_names: names,
                    nearest_identity_before_quote: nearest,
                };
                let ghost before = context_views(out@);
                out.push(candidate);
                proof {
                    assert(context_views(out@) =~= before.push(context_view(candidate)));
                }
            }
        }
        i += 1;
    }
    proof {
        assert(sv.take(i as int) =~= sv);
    }
    out
}

// ------------------------------------------------------------------------
// Whether evidence lets an alias be given to its owner.
// ------------------------------------------------------------------------
/// Ownership evidence moved to the chapter, without offsets.
pub open spec fn ownership_evidence(evidence: Seq<StoryEvidenceSpan>, chapter_num: i64) -> Seq<StoryEvidenceSpan> {
    evidence.map_values(
        |e: StoryEvidenceSpan|
            StoryEvidenceSpan {
                chapter_num,
                start_char: None,
                end_char: None,
                quote: e.quote,
                reason: e.reason,
            },
    )
}

pub fn normalize_alias_ownership_evidence(evidence: Vec<StoryEvidenceSpan>, chapter_num: i64) -> (r: Vec<
    StoryEvidenceSpan,
>)
    ensures
        r@ == ownership_evidence(evidence@, chapter_num),
{
    let ghost items = evidence@;
    let total = evidence.len();
    let mut rest = evidence;
    let mut out: Vec<StoryEvidenceSpan> = Vec::new();
    let mut taken: usize = 0;
    proof {
        assert(items.skip(0) =~= items);
    }
    while rest.len() > 0
        invariant
            items.len() == total,
            taken + rest@.len() == items.len(),
            rest@ == items.skip(taken as int),
            out@ == ownership_evidence(items.take(taken as int), chapter_num),
        decreases rest@.len(),
    {
        let span = rest.remove(0);
        proof {
            assert(span == items[taken as int]);
            assert(rest@ =~= items.skip(taken + 1));
        }
        out.push(
            StoryEvidenceSpan {
                chapter_num,
                start_char: None,
                end_char: None,
                quote: span.quote,
                reason: span.reason,
            },
        );
        proof {
            assert(out@ =~= ownership_evidence(items.take(taken + 1), chapter_num));
        }
        taken += 1;
    }
    proof {
        assert(items.take(taken as int) =~= items);
    }
    out
}

/// Some quote, by folded keys, contains the surface.
pub open spec fn evidence_mentions(evidence: Seq<StoryEvidenceSpan>, surface: Seq<char>) -> bool {
    let key = text_key(surface, true);
    &&& key.len() > 0
    &&& exists|i: int|
        0 <= i < evidence.len() && match (#[trigger] evidence[i]).quote {
            Some(q) => contains_seq(text_key(q@, true), key),
            None => false,
        }
}

pub fn alias_evidence_mentions_surface(evidence: &Vec<StoryEvidenceSpan>, surface: &str) -> (r: bool)
    ensures
        r == evidence_mentions(evidence@, surface@),
{
    let key = chars_of(normalized_folded_text_key(surface).as_str());
    if key.len() == 0 {
        return false;
    }
    let mut i: usize = 0;
    while i < evidence.len()
        invariant
            key@ == text_key(surface@, true),
            key@.len() > 0,
            0 <= i <= evidence@.len(),
            forall|k: int|
                0 <= k < i ==> !match (#[trigger] evidence@[k]).quote {
                    Some(q) => contains_seq(text_key(q@, true), key@),
                    None => false,
                },
        decreases evidence@.len() - i,
    {
        match &evidence[i].quote {
            Some(q) => {
                let quote_key = chars_of(normalized_folded_text_key(q.as_str()).as_str());
                if contains_chars(&quote_key, &key) {
                    return true;
                }
            },
            None => {},
        }
        i += 1;
    }
    false
}

/// The tokens of a surface's folded key with at least two chars.
pub open spec fn distinctive_tokens(value: Seq<char>) -> Seq<Seq<char>> {
    split_on(text_key(value, true), '_').filter(|t: Seq<char>| t.len() >= 2)
}

pub fn distinctive_surface_tokens(value: &str) -> (r: Vec<String>)
    ensures
        r@.map_values(|t: String| t@) == distinctive_tokens(value@),
{
    let parts = split_str(normalized_folded_text_key(value).as_str(), '_');
    let ghost pv = parts@.map_values(|p: String| p@);
    let mut out: Vec<String> = Vec::new();
    let mut i: usize = 0;
    proof {
        reveal(Seq::filter);
        assert(pv.take(0) =~= Seq::<Seq<char>>::empty());
        assert(pv.take(0).filter(|t: Seq<char>| t.len() >= 2) =~= Seq::<Seq<char>>::empty());
        assert(out@.map_values(|t: String| t@) =~= Seq::<Seq<char>>::empty());
    }
    while i < parts.len()
        invariant
            pv == parts@.map_values(|p: String| p@),
            pv == split_on(text_key(value@, true), '_'),
            0 <= i <= parts@.len(),
            out@.map_values(|t: String| t@) == pv.take(i as int).filter(|t: Seq<char>| t.len() >= 2),
        decreases parts@.len() - i,
    {
        proof {
            assert(pv.take(i + 1).drop_last() =~= pv.take(i as int));
            assert(pv.take(i + 1).last() == parts@[i as int]@);
            reveal(Seq::filter);
            assert(pv.take(i + 1) =~= pv.take(i as int).push(pv[i as int]));
        }
        let count = chars_of(parts[i].as_str()).len();
        if count >= 2 {
            let ghost before = out@;
            out.push(parts[i].clone());
            proof {
                assert(out@.map_values(|t: String| t@) =~= before.map_values(|t: String| t@).push(
                    parts@[i as int]@,
                ));
            }
        }
        i += 1;
    }
    proof {
        assert(pv.take(i as int) =~= pv);
    }
    out
}

/// The two surfaces share a distinctive token.
pub open spec fn share_distinctive_token(left: Seq<char>, right: Seq<char>) -> bool {
    let l = distinctive_tokens(left);
    let r = distinctive_tokens(right);
    &&& l.len() > 0
    &&& exists|i: int| 0 <= i < l.len() && r.contains(#[trigger] l[i])
}

pub fn character_surfaces_share_distinctive_token(left: &str, right: &str) -> (r: bool)
    ensures
        r == share_distinctive_token(left@, right@),
{
    let left_tokens = distinctive_surface_tokens(left);
    if left_tokens.len() == 0 {
        return false;
    }
    let right_tokens = distinctive_surface_tokens(right);
    let ghost lv = left_tokens@.map_values(|t: String| t@);
    let ghost rv = right_tokens@.map_values(|t: String| t@);
    let mut i: usize = 0;
    while i < left_tokens.len()
        invariant
            lv == left_tokens@.map_values(|t: String| t@),
            lv == distinctive_tokens(left@),
            rv == right_tokens@.map_values(|t: String| t@),
            rv == distinctive_tokens(right@),
            lv.len() > 0,
            0 <= i <= left_tokens@.len(),
            forall|k: int| 0 <= k < i ==> !rv.contains(#[trigger] lv[k]),
        decreases left_tokens@.len() - i,
    {
        assert(lv[i as int] == left_tokens@[i as int]@);
        if list_contains(&right_tokens, left_tokens[i].as_str()) {
            return true;
        }
        i += 1;
    }
    false
}

/// The first identity whose name or an alias has the key of `surface`.
pub open spec fn identity_by_surface(identities: Seq<CharacterIdentity>, key: Seq<char>, i: int) -> Option<int>
    decreases identities.len() - i,
{
    if i < 0 || i >= identities.len() {
        None
    } else if text_key(identities[i].name@, false) == key || exists|k: int|
        0 <= k < identities[i].aliases@.len() && text_key(
            (#[trigger] identities[i].aliases@[k]).text@,
            false,
        ) == key {
        Some(i)
    } else {
        identity_by_surface(identities, key, i + 1)
    }
}

pub fn find_character_identity_index_by_surface(identities: &Vec<CharacterIdentity>, surface: &str) -> (r: Option<
    usize,
>)
    ensures
        match r {
            Some(i) => text_key(surface@, false).len() > 0 && identity_by_surface(
                identities@,
                text_key(surface@, false),
                0,
            ) == Some(i as int),
            None => text_key(surface@, false).len() == 0 || identity_by_surface(
                identities@,
                text_key(surface@, false),
                0,
            ) is None,
        },
{
    let key = normalized_text_key(surface);
    if key.as_str().is_empty() {
        return None;
    }
    let mut i: usize = 0;
    while i < identities.len()
        invariant
            key@ == text_key(surface@, false),
            key@.len() > 0,
            0 <= i <= identities@.len(),
            identity_by_surface(identities@, key@, 0) == identity_by_surface(identities@, key@, i as int),
        decreases identities@.len() - i,
    {
        let identity = &identities[i];
        if str_eq(normalized_text_key(identity.name.as_str()).as_str(), key.as_str()) {
            return Some(i);
        }
        let mut j: usize = 0;
        while j < identity.aliases.len()
            invariant
                key@ == text_key(surface@, false),
                key@.len() > 0,
                0 <= i < identities@.len(),
                identity == identities@[i as int],
                text_key(identity.name@, false) != key@,
                identity_by_surface(identities@, key@, 0) == identity_by_surface(identities@, key@, i as int),
                0 <= j <= identity.aliases@.len(),
                forall|k: int| 0 <= k < j ==> text_key((#[trigger] identity.aliases@[k]).text@, false) != key@,
            decreases identity.aliases@.len() - j,
        {
            if str_eq(normalized_text_key(identity.aliases[j].text.as_str()).as_str(), key.as_str()) {
                assert(text_key(identities@[i as int].aliases@[j as int].text@, false) == key@);
                return Some(i);
            }
            j += 1;
        }
        i += 1;
    }
    None
}

/// An alias can go to its owner when its evidence quotes the alias and either
/// quotes one of the owner's surfaces or the alias shares a distinctive token
/// with one of them.
pub open spec fn ownership_applicable(owner: CharacterIdentity, alias_text: Seq<char>, evidence: Seq<StoryEvidenceSpan>) -> bool {
    let surfaces = surfaces_scan(identity_surface_items(owner)).0;
    &&& evidence.len() > 0
    &&& evidence_mentions(evidence, alias_text)
    &&& ((exists|k: int| 0 <= k < surfaces.len() && evidence_mentions(evidence, #[trigger] surfaces[k].0))
        || (exists|k: int| 0 <= k < surfaces.len() && share_distinctive_token(alias_text, #[trigger] surfaces[k].0)))
}

pub fn alias_ownership_can_be_applied(
    identities: &Vec<CharacterIdentity>,
    owner_index: usize,
    alias_text: &str,
    evidence: &Vec<StoryEvidenceSpan>,
) -> (r: bool)
    requires
        owner_index < identities@.len(),
    ensures
        r == ownership_applicable(identities@[owner_index as int], alias_text@, evidence@),
{
    if evidence.len() == 0 || !alias_evidence_mentions_surface(evidence, alias_text) {
        return false;
    }
    let owner = &identities[owner_index];
    let surfaces = character_identity_surfaces(owner);
    let ghost sv = surface_pair_views(surfaces@);
    let mut i: usize = 0;
    while i < surfaces.len()
        invariant
            owner_index < identities@.len(),
            *owner == identities@[owner_index as int],
            evidence@.len() > 0,
            evidence_mentions(evidence@, alias_text@),
            sv == surface_pair_views(surfaces@),
            sv == surfaces_scan(identity_surface_items(*owner)).0,
            0 <= i <= surfaces@.len(),
            forall|k: int| 0 <= k < i ==> !evidence_mentions(evidence@, #[trigger] sv[k].0),
        decreases surfaces@.len() - i,
    {
        assert(sv[i as int].0 == surfaces@[i as int].0@);
        if alias_evidence_mentions_surface(evidence, surfaces[i].0.as_str()) {
            assert(evidence_mentions(evidence@, sv[i as int].0));
            return true;
        }
        i += 1;
    }
    let mut j: usize = 0;
    while j < surfaces.len()
        invariant
            owner_index < identities@.len(),
            *owner == identities@[owner_index as int],
            evidence@.len() > 0,
            evidence_mentions(evidence@, alias_text@),
            sv == surface_pair_views(surfaces@),
            sv == surfaces_scan(identity_surface_items(*owner)).0,
            forall|k: int| 0 <= k < sv.len() ==> !evidence_mentions(evidence@, #[trigger] sv[k].0),
            0 <= j <= surfaces@.len(),
            forall|k: int| 0 <= k < j ==> !share_distinctive_token(alias_text@, #[trigger] sv[k].0),
        decreases surfaces@.len() - j,
    {
        assert(sv[j as int].0 == surfaces@[j as int].0@);
        if character_surfaces_share_distinctive_token(alias_text, surfaces[j].0.as_str()) {
            assert(share_distinctive_token(alias_text@, sv[j as int].0));
            return true;
        }
        j += 1;
    }
    false
}

} // verus!
