//! The backend mention scan of a character: its surfaces are found in the
//! chapter, clear ones become mentions at once, and ambiguous ones are grouped
//! so that a few samples of each can be confirmed before they count.
use vstd::prelude::*;
use crate::characters::{
    character_identity_surfaces, identity_surface_items, surface_pair_views, surfaces_scan,
    CharacterIdentity,
};
use crate::domain::StoryCharacterMention;
use crate::keys::{normalized_text_key, text_key};
use crate::occurrences::{
    find_surface_occurrences, non_overlapping, occ_view, occ_views, occurrence_views,
    select_non_overlapping_occurrences, sort_occurrences, stable_sort, surface_occurrences,
    OccView, ScannedCharacterOccurrence,
};
use crate::redact::{split_whitespace, words};
use crate::surfaces::{is_ambiguous_character_surface, is_ambiguous_surface};
use crate::text::{chars_of, char_is_alphanumeric, is_alnum, owned, push_char, push_str, str_eq};

verus! {

/// How many occurrences of an ambiguous surface are confirmed at most.
pub const CHARACTER_OCCURRENCE_CONFIRMATION_SAMPLE_LIMIT: usize = 3;

/// How many chars of context stand on each side of a sampled occurrence.
pub const CHARACTER_OCCURRENCE_CONTEXT_CHARS: i64 = 150;

/// A field-by-field copy.
pub fn clone_occurrence(o: &ScannedCharacterOccurrence) -> (r: ScannedCharacterOccurrence)
    ensures
        r == *o,
{
    ScannedCharacterOccurrence {
        text: o.text.clone(),
        start_char: o.start_char,
        end_char: o.end_char,
        mention_type: o.mention_type.clone(),
        ambiguous: o.ambiguous,
    }
}

/// The mention an occurrence becomes.
pub fn scanned_occurrence_to_mention(o: ScannedCharacterOccurrence) -> (r: StoryCharacterMention)
    ensures
        r.text == o.text,
        r.start_char == o.start_char,
        r.end_char == o.end_char,
        r.mention_type == Some(o.mention_type),
{
    StoryCharacterMention {
        text: o.text,
        start_char: o.start_char,
        end_char: o.end_char,
        mention_type: Some(o.mention_type),
    }
}

/// The group an ambiguous occurrence is confirmed with: its kind and text key.
pub open spec fn group_key(o: OccView) -> Seq<char> {
    o.3 + ":"@ + text_key(o.2, false)
}

pub fn character_occurrence_group_key(o: &ScannedCharacterOccurrence) -> (r: String)
    ensures
        r@ == group_key(occ_view(*o)),
{
    let mut key = o.mention_type.clone();
    push_str(&mut key, ":");
    let text_key_value = normalized_text_key(o.text.as_str());
    push_str(&mut key, text_key_value.as_str());
    key
}

// ------------------------------------------------------------------------
// The scan.
// ------------------------------------------------------------------------
/// The occurrences of the surfaces in turn, each marked with its kind of
/// mention and whether the surface is ambiguous.
pub open spec fn scanned_views(t: Seq<char>, surfaces: Seq<(Seq<char>, Seq<char>)>) -> Seq<OccView>
    decreases surfaces.len(),
{
    if surfaces.len() == 0 {
        seq![]
    } else {
        let (surface, kind) = surfaces.last();
        scanned_views(t, surfaces.drop_last()) + surface_occurrences(t, surface).map_values(
            |o: (int, int, Seq<char>)| (o.0, o.1, o.2, kind, is_ambiguous_surface(surface)),
        )
    }
}

/// The kept occurrences of clear surfaces, in order.
pub open spec fn direct_of(s: Seq<OccView>) -> Seq<OccView>
    decreases s.len(),
{
    if s.len() == 0 {
        seq![]
    } else if !s.last().4 {
        direct_of(s.drop_last()).push(s.last())
    } else {
        direct_of(s.drop_last())
    }
}

/// The first group with the key.
pub open spec fn group_index(groups: Seq<(Seq<char>, Seq<OccView>)>, key: Seq<char>, i: int) -> Option<int>
    decreases groups.len() - i,
{
    if i < 0 || i >= groups.len() {
        None
    } else if groups[i].0 == key {
        Some(i)
    } else {
        group_index(groups, key, i + 1)
    }
}

/// The kept occurrences of ambiguous surfaces, grouped by key, groups in the
/// order of their first occurrence.
pub open spec fn groups_of(s: Seq<OccView>) -> Seq<(Seq<char>, Seq<OccView>)>
    decreases s.len(),
{
    if s.len() == 0 {
        seq![]
    } else {
        let prev = groups_of(s.drop_last());
        let o = s.last();
        if !o.4 {
            prev
        } else {
            match group_index(prev, group_key(o), 0) {
                Some(g) => prev.update(g, (prev[g].0, prev[g].1.push(o))),
                None => prev.push((group_key(o), seq![o])),
            }
        }
    }
}

/// Occurrences of an ambiguous surface, to be confirmed together.
#[derive(Debug)]
pub struct AmbiguousGroup {
    pub key: String,
    pub occurrences: Vec<ScannedCharacterOccurrence>,
}

pub open spec fn group_views(groups: Seq<AmbiguousGroup>) -> Seq<(Seq<char>, Seq<OccView>)> {
    groups.map_values(|g: AmbiguousGroup| (g.key@, occ_views(g.occurrences@)))
}

/// What the scan of a character found before any confirmation.
#[derive(Debug)]
pub struct MentionScanPlan {
    pub surface_count: usize,
    pub scanned_count: usize,
    /// Kept occurrences of clear surfaces: mentions at once.
    pub direct: Vec<ScannedCharacterOccurrence>,
    /// Kept occurrences of ambiguous surfaces, by group.
    pub groups: Vec<AmbiguousGroup>,
}

fn group_position(groups: &Vec<AmbiguousGroup>, key: &String) -> (r: Option<usize>)
    ensures
        match r {
            Some(i) => group_index(group_views(groups@), key@, 0) == Some(i as int) && i
                < groups@.len(),
            None => group_index(group_views(groups@), key@, 0) is None,
        },
{
    let ghost views = group_views(groups@);
    let mut i: usize = 0;
    while i < groups.len()
        invariant
            views == group_views(groups@),
            0 <= i <= groups@.len(),
            group_index(views, key@, 0) == group_index(views, key@, i as int),
        decreases groups@.len() - i,
    {
        if str_eq(groups[i].key.as_str(), key.as_str()) {
            return Some(i);
        }
        i += 1;
    }
    None
}

/// Finds a character's surfaces in the chapter and sorts the kept
/// occurrences into clear ones and groups of ambiguous ones.
pub fn plan_mention_scan(identity: &CharacterIdentity, chapter_text: &str) -> (r: MentionScanPlan)
    requires
        chapter_text@.len() < i64::MAX,
    ensures
        ({
            let surfaces = surfaces_scan(identity_surface_items(*identity)).0;
            let scanned = scanned_views(chapter_text@, surfaces);
            let kept = non_overlapping(scanned);
            &&& r.surface_count == surfaces.len()
            &&& r.scanned_count == scanned.len()
            &&& occ_views(r.direct@) == direct_of(kept)
            &&& group_views(r.groups@) == groups_of(kept)
        }),
{
    let surfaces = character_identity_surfaces(identity);
    let ghost sv = surface_pair_views(surfaces@);
    let mut scanned: Vec<ScannedCharacterOccurrence> = Vec::new();
    let mut i: usize = 0;
    while i < surfaces.len()
        invariant
            sv == surface_pair_views(surfaces@),
            chapter_text@.len() < i64::MAX,
            0 <= i <= surfaces@.len(),
            occ_views(scanned@) == scanned_views(chapter_text@, sv.take(i as int)),
        decreases surfaces@.len() - i,
    {
        let surface = surfaces[i].0.as_str();
        let kind = surfaces[i].1.as_str();
        let ambiguous = is_ambiguous_character_surface(surface);
        let mut found = find_surface_occurrences(chapter_text, surface, kind, ambiguous);
        let ghost before = occ_views(scanned@);
        let ghost added = surface_occurrences(chapter_text@, surface@).map_values(
            |o: (int, int, Seq<char>)| (o.0, o.1, o.2, kind@, is_ambiguous_surface(surface@)),
        );
        proof {
            assert(sv.take(i + 1).drop_last() =~= sv.take(i as int));
            assert(sv.take(i + 1).last() == (surface@, kind@));
            assert forall|k: int| 0 <= k < found@.len() implies occ_view(#[trigger] found@[k])
                == added[k] by {
                assert(occurrence_views(found@)[k] == surface_occurrences(chapter_text@, surface@)[k]);
            }
            assert(occ_views(found@) =~= added);
        }
        scanned.append(&mut found);
        proof {
            assert(occ_views(scanned@) =~= before + added);
        }
        i += 1;
    }
    proof {
        assert(sv.take(sv.len() as int) =~= sv);
    }
    let scanned_count = scanned.len();
    let selected = select_non_overlapping_occurrences(scanned);
    let ghost kept = occ_views(selected@);
    let mut direct: Vec<ScannedCharacterOccurrence> = Vec::new();
    let mut groups: Vec<AmbiguousGroup> = Vec::new();
    let mut rest = selected;
    let ghost items = rest@;
    let mut taken: usize = 0;
    let total = rest.len();
    proof {
        assert(kept.take(0) =~= Seq::<OccView>::empty());
        assert(items.skip(0) =~= items);
        assert(occ_views(direct@) =~= Seq::<OccView>::empty());
        assert(group_views(groups@) =~= Seq::<(Seq<char>, Seq<OccView>)>::empty());
    }
    while rest.len() > 0
        invariant
            taken + rest@.len() == kept.len(),
            kept.len() == total,
            kept == occ_views(items),
            rest@ == items.skip(taken as int),
            occ_views(direct@) == direct_of(kept.take(taken as int)),
            group_views(groups@) == groups_of(kept.take(taken as int)),
        decreases rest@.len(),
    {
        let o = rest.remove(0);
        proof {
            assert(o == items[taken as int]);
            assert(rest@ =~= items.skip(taken + 1));
            assert(kept.take(taken + 1).drop_last() =~= kept.take(taken as int));
            assert(kept.take(taken + 1).last() == occ_view(o));
        }
        if !o.ambiguous {
            let ghost before = occ_views(direct@);
            direct.push(o);
            proof {
                assert(occ_views(direct@) =~= before.push(occ_view(o)));
            }
        } else {
            let key = character_occurrence_group_key(&o);
            let ghost before = group_views(groups@);
            match group_position(&groups, &key) {
                Some(g) => {
                    let mut group = groups.remove(g);
                    let ghost group_before = occ_views(group.occurrences@);
                    group.occurrences.push(o);
                    proof {
                        assert(occ_views(group.occurrences@) =~= group_before.push(occ_view(o)));
                    }
                    groups.insert(g, group);
                    proof {
                        assert(group_views(groups@) =~= before.update(
                            g as int,
                            (before[g as int].0, before[g as int].1.push(occ_view(o))),
                        ));
                    }
                },
                None => {
                    let ghost kv = key@;
                    groups.push(AmbiguousGroup { key, occurrences: vec![o] });
                    proof {
                        assert(occ_views(groups@.last().occurrences@) =~= seq![occ_view(o)]);
                        assert(group_views(groups@) =~= before.push((kv, seq![occ_view(o)])));
                    }
                },
            }
        }
        taken += 1;
    }
    proof {
        assert(kept.take(kept.len() as int) =~= kept);
    }
    MentionScanPlan { surface_count: surfaces.len(), scanned_count, direct, groups }
}

// ------------------------------------------------------------------------
// Confirming ambiguous groups.
// ------------------------------------------------------------------------
/// The positions sampled from `n` occurrences: all of them up to the limit,
/// else the first, the middle and the last.
pub open spec fn sample_positions(n: int) -> Seq<int> {
    if n <= 3 {
        Seq::new(n as nat, |i: int| i)
    } else {
        seq![0, (n - 1) / 2, n - 1]
    }
}

/// The occurrences a model is asked to confirm: a few spread over the
/// list (first, middle, last, as `sample_positions` picks them).
pub fn sample_character_occurrences_for_confirmation(occurrences: &Vec<ScannedCharacterOccurrence>) -> (r: Vec<ScannedCharacterOccurrence>)
    ensures
        r@.len() == sample_positions(occurrences@.len() as int).len(),
        forall|k: int|
            0 <= k < r@.len() ==> #[trigger] r@[k] == occurrences@[sample_positions(
                occurrences@.len() as int,
            )[k]],
{
    let n = occurrences.len();
    let mut samples: Vec<ScannedCharacterOccurrence> = Vec::new();
    if n <= CHARACTER_OCCURRENCE_CONFIRMATION_SAMPLE_LIMIT {
        let mut i: usize = 0;
        while i < n
            invariant
                n == occurrences@.len(),
                n <= 3,
                0 <= i <= n,
                samples@.len() == i,
                forall|k: int| 0 <= k < i ==> #[trigger] samples@[k] == occurrences@[k],
            decreases n - i,
        {
            samples.push(clone_occurrence(&occurrences[i]));
            i += 1;
        }
        return samples;
    }
    let last = n - 1;
    samples.push(clone_occurrence(&occurrences[0]));
    samples.push(clone_occurrence(&occurrences[last / 2]));
    samples.push(clone_occurrence(&occurrences[last]));
    samples
}

/// Whether a surface is distinctive enough that confirming every sample
/// confirms all its occurrences: at least five letters or digits, and at
/// least two words.
pub open spec fn can_accept_all(surface: Seq<char>) -> bool {
    alnum_count(surface) >= 5 && words(surface).len() >= 2
}

pub open spec fn alnum_count(s: Seq<char>) -> nat
    decreases s.len(),
{
    if s.len() == 0 {
        0
    } else {
        alnum_count(s.drop_last()) + if is_alnum(s.last()) {
            1nat
        } else {
            0nat
        }
    }
}

pub fn surface_sample_confirmation_can_accept_all(surface: &str) -> (r: bool)
    ensures
        r == can_accept_all(surface@),
{
    let cs = chars_of(surface);
    let mut count: usize = 0;
    let mut i: usize = 0;
    while i < cs.len()
        invariant
            cs@ == surface@,
            0 <= i <= cs@.len(),
            count == alnum_count(cs@.take(i as int)),
            count <= i,
        decreases cs@.len() - i,
    {
        proof {
            assert(cs@.take(i + 1).drop_last() =~= cs@.take(i as int));
        }
        if char_is_alphanumeric(cs[i]) {
            count += 1;
        }
        i += 1;
    }
    proof {
        assert(cs@.take(cs@.len() as int) =~= cs@);
    }
    count >= 5 && split_whitespace(&cs).len() >= 2
}

/// The samples that were confirmed, in order.
pub open spec fn confirmed_of(samples: Seq<OccView>, confirmed: Seq<bool>) -> Seq<OccView>
    decreases samples.len(),
{
    if samples.len() == 0 {
        seq![]
    } else {
        let prev = confirmed_of(samples.drop_last(), confirmed);
        if confirmed[samples.len() - 1] {
            prev.push(samples.last())
        } else {
            prev
        }
    }
}

/// What a group contributes: all its occurrences when there were samples,
/// all confirmed, and the surface is distinctive; else the confirmed samples.
pub open spec fn group_outcome(occurrences: Seq<OccView>, samples: Seq<OccView>, confirmed: Seq<bool>) -> Seq<OccView> {
    let surface = if occurrences.len() > 0 {
        occurrences[0].2
    } else {
        ""@
    };
    if samples.len() > 0 && (forall|k: int| 0 <= k < samples.len() ==> #[trigger] confirmed[k])
        && can_accept_all(surface) {
        occurrences
    } else {
        confirmed_of(samples, confirmed)
    }
}

/// The occurrences of a group that become mentions, given which samples were
/// confirmed (one flag per sample).
pub fn accepted_group_occurrences(
    occurrences: Vec<ScannedCharacterOccurrence>,
    samples: Vec<ScannedCharacterOccurrence>,
    confirmed: &Vec<bool>,
) -> (r: Vec<ScannedCharacterOccurrence>)
    requires
        confirmed@.len() == samples@.len(),
    ensures
        occ_views(r@) == group_outcome(occ_views(occurrences@), occ_views(samples@), confirmed@),
{
    let surface_text = if occurrences.len() > 0 {
        occurrences[0].text.clone()
    } else {
        String::new()
    };
    let mut rejected: usize = 0;
    let mut i: usize = 0;
    while i < confirmed.len()
        invariant
            0 <= i <= confirmed@.len(),
            rejected <= i,
            rejected == 0 <==> forall|k: int| 0 <= k < i ==> #[trigger] confirmed@[k],
        decreases confirmed@.len() - i,
    {
        if !confirmed[i] {
            rejected += 1;
        }
        i += 1;
    }
    proof {
        reveal_strlit("");
    }
    let accept_all = samples.len() > 0 && rejected == 0
        && surface_sample_confirmation_can_accept_all(surface_text.as_str());
    if accept_all {
        return occurrences;
    }
    let ghost sv = occ_views(samples@);
    let mut out: Vec<ScannedCharacterOccurrence> = Vec::new();
    let mut rest = samples;
    let ghost items = rest@;
    let mut taken: usize = 0;
    let total = rest.len();
    proof {
        assert(sv.take(0) =~= Seq::<OccView>::empty());
        assert(items.skip(0) =~= items);
        assert(occ_views(out@) =~= Seq::<OccView>::empty());
    }
    while rest.len() > 0
        invariant
            taken + rest@.len() == sv.len(),
            sv.len() == total,
            total == confirmed@.len(),
            sv == occ_views(items),
            rest@ == items.skip(taken as int),
            occ_views(out@) == confirmed_of(sv.take(taken as int), confirmed@),
        decreases rest@.len(),
    {
        let o = rest.remove(0);
        proof {
            assert(o == items[taken as int]);
            assert(rest@ =~= items.skip(taken + 1));
            assert(sv.take(taken + 1).drop_last() =~= sv.take(taken as int));
            assert(sv.take(taken + 1).last() == occ_view(o));
        }
        if confirmed[taken] {
            let ghost before = occ_views(out@);
            out.push(o);
            proof {
                assert(occ_views(out@) =~= before.push(occ_view(o)));
            }
        }
        taken += 1;
    }
    proof {
        assert(sv.take(sv.len() as int) =~= sv);
    }
    out
}

pub open spec fn mention_views(v: Seq<StoryCharacterMention>) -> Seq<OccView> {
    v.map_values(
        |m: StoryCharacterMention|
            (
                m.start_char as int,
                m.end_char as int,
                m.text@,
                match m.mention_type {
                    Some(t) => t@,
                    None => seq![],
                },
                false,
            ),
    )
}

/// The accepted occurrences as mentions, in text order (earlier first, then
/// longer first).
pub fn mentions_in_text_order(accepted: Vec<ScannedCharacterOccurrence>) -> (r: Vec<StoryCharacterMention>)
    ensures
        r@.len() == accepted@.len(),
        forall|k: int|
            0 <= k < r@.len() ==> {
                let v = stable_sort(occ_views(accepted@), true)[k];
                let m = #[trigger] r@[k];
                &&& m.start_char as int == v.0
                &&& m.end_char as int == v.1
                &&& m.text@ == v.2
                &&& m.mention_type matches Some(t) && t@ == v.3
            },
{
    let sorted = sort_occurrences(accepted, true);
    let ghost sv = occ_views(sorted@);
    let mut out: Vec<StoryCharacterMention> = Vec::new();
    let mut rest = sorted;
    let ghost items = rest@;
    let mut taken: usize = 0;
    let total = rest.len();
    proof {
        assert(items.skip(0) =~= items);
    }
    while rest.len() > 0
        invariant
            taken + rest@.len() == sv.len(),
            sv.len() == total,
            sv == occ_views(items),
            rest@ == items.skip(taken as int),
            out@.len() == taken,
            forall|k: int|
                0 <= k < taken ==> {
                    let v = sv[k];
                    let m = #[trigger] out@[k];
                    &&& m.start_char as int == v.0
                    &&& m.end_char as int == v.1
                    &&& m.text@ == v.2
                    &&& m.mention_type matches Some(t) && t@ == v.3
                },
        decreases rest@.len(),
    {
        let o = rest.remove(0);
        proof {
            assert(o == items[taken as int]);
            assert(rest@ =~= items.skip(taken + 1));
        }
        out.push(scanned_occurrence_to_mention(o));
        taken += 1;
    }
    proof {
        crate::occurrences::lemma_stable_sort_len_pub(occ_views(accepted@), true);
    }
    out
}

// ------------------------------------------------------------------------
// The context a sample is confirmed in.
// ------------------------------------------------------------------------
/// One char of the context, with `[[` before the mention's first char and
/// `]]` after its last.
pub open spec fn context_piece(cs: Seq<char>, i: int, mention_start: int, mention_end: int) -> Seq<char> {
    (if i == mention_start {
        "[["@
    } else {
        seq![]
    }) + seq![cs[i]] + (if i + 1 == mention_end {
        "]]"@
    } else {
        seq![]
    })
}

/// The marked context over `[a, b)`.
pub open spec fn context_upto(cs: Seq<char>, a: int, b: int, mention_start: int, mention_end: int) -> Seq<char>
    decreases b - a,
{
    if b <= a {
        seq![]
    } else {
        context_upto(cs, a, b - 1, mention_start, mention_end) + context_piece(
            cs,
            b - 1,
            mention_start,
            mention_end,
        )
    }
}

pub open spec fn clamp(v: int, lo: int, hi: int) -> int {
    if v < lo {
        lo
    } else if v > hi {
        hi
    } else {
        v
    }
}

/// The text around an occurrence, `radius` chars on each side, with the
/// occurrence marked by `[[` and `]]`.
pub open spec fn occurrence_context(cs: Seq<char>, start: int, end: int, radius: int) -> Seq<char> {
    let a = if start - radius < 0 {
        0
    } else {
        start - radius
    };
    let b = clamp(end + radius, 0, cs.len() as int);
    let ms = if start < 0 {
        0
    } else {
        start
    };
    let me = clamp(end, 0, cs.len() as int);
    context_upto(cs, a, b, ms, me)
}

/// The text around an occurrence, `radius` chars each side, with the
/// occurrence itself marked by `[[` and `]]`.
pub fn character_occurrence_context(chapter_text: &str, start_char: i64, end_char: i64, radius: i64) -> (r: String)
    requires
        i64::MIN <= end_char + radius <= i64::MAX,
    ensures
        r@ == occurrence_context(chapter_text@, start_char as int, end_char as int, radius as int),
{
    let chars = chars_of(chapter_text);
    let n = chars.len();
    let low: i128 = start_char as i128 - radius as i128;
    let high = end_char + radius;
    let context_start: usize = if low < 0 {
        0
    } else if low > n as i128 {
        n
    } else {
        low as usize
    };
    let context_end: usize = if high < 0 {
        0
    } else if high as u64 > n as u64 {
        n
    } else {
        high as usize
    };
    let mention_start: i128 = if start_char < 0 {
        0
    } else {
        start_char as i128
    };
    let mention_end: i128 = if end_char < 0 {
        0
    } else if end_char as u64 > n as u64 {
        n as i128
    } else {
        end_char as i128
    };
    let ghost a = if start_char - radius < 0 {
        0
    } else {
        start_char - radius
    };
    let ghost b = clamp(end_char + radius, 0, n as int);
    let mut out = String::new();
    if context_start >= context_end {
        proof {
            assert(context_upto(chars@, a, b, mention_start as int, mention_end as int) =~= seq![])
                by {
                if a < b {
                    assert(a > n || a >= b);
                }
            }
        }
        return out;
    }
    let mut i = context_start;
    proof {
        assert(out@ =~= context_upto(chars@, a, i as int, mention_start as int, mention_end as int));
    }
    while i < context_end
        invariant
            chars@ == chapter_text@,
            context_start <= i <= context_end <= chars@.len(),
            a == context_start as int,
            out@ == context_upto(chars@, a, i as int, mention_start as int, mention_end as int),
        decreases context_end - i,
    {
        if i as i128 == mention_start {
            push_str(&mut out, "[[");
        }
        push_char(&mut out, chars[i]);
        if i as i128 + 1 == mention_end {
            push_str(&mut out, "]]");
        }
        proof {
            reveal_strlit("[[");
            reveal_strlit("]]");
        }
        i += 1;
    }
    out
}

} // verus!
