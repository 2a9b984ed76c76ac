//! Finding where a character's surfaces occur in a chapter: exact matches at
//! word boundaries, in the surface's first-letter case variants, then the
//! longest non-overlapping ones.
use vstd::prelude::*;
use crate::text::{
    char_is_alphanumeric, char_lowercase, char_to_lowercase, char_to_uppercase, char_uppercase,
    chars_eq, chars_of, is_alnum, matches_at, occurs_at, owned, seq_less, str_less, string_of,
};

verus! {

/// A match of a surface in the chapter, with its char range.
#[derive(Debug, Clone)]
pub struct ScannedCharacterOccurrence {
    pub text: String,
    pub start_char: i64,
    pub end_char: i64,
    pub mention_type: String,
    pub ambiguous: bool,
}

// ------------------------------------------------------------------------
// Case variants of a surface.
// ------------------------------------------------------------------------
/// The surface as given, then with its first letter lowercased, then
/// uppercased.
pub open spec fn raw_variants(s: Seq<char>) -> Seq<Seq<char>> {
    if s.len() == 0 {
        seq![s]
    } else {
        seq![s, char_lowercase(s[0]) + s.drop_first(), char_uppercase(s[0]) + s.drop_first()]
    }
}

/// The non-empty values, each once, in their first order.
pub open spec fn dedup_nonempty(vs: Seq<Seq<char>>) -> Seq<Seq<char>>
    decreases vs.len(),
{
    if vs.len() == 0 {
        seq![]
    } else {
        let prev = dedup_nonempty(vs.drop_last());
        if vs.last().len() > 0 && !prev.contains(vs.last()) {
            prev.push(vs.last())
        } else {
            prev
        }
    }
}

/// The spellings a surface is searched in.
pub open spec fn scan_variants(s: Seq<char>) -> Seq<Seq<char>> {
    dedup_nonempty(raw_variants(s))
}

pub open spec fn char_vec_views(v: Seq<Vec<char>>) -> Seq<Seq<char>> {
    v.map_values(|x: Vec<char>| x@)
}

fn contains_chars_vec(vs: &Vec<Vec<char>>, v: &Vec<char>) -> (r: bool)
    ensures
        r == char_vec_views(vs@).contains(v@),
{
    let ghost views = char_vec_views(vs@);
    let mut i: usize = 0;
    while i < vs.len()
        invariant
            views == char_vec_views(vs@),
            0 <= i <= vs@.len(),
            forall|k: int| 0 <= k < i ==> views[k] != v@,
        decreases vs@.len() - i,
    {
        if chars_eq(&vs[i], v) {
            assert(views[i as int] == v@);
            return true;
        }
        i += 1;
    }
    false
}

fn push_variant(variants: &mut Vec<Vec<char>>, value: Vec<char>)
    ensures
        char_vec_views(final(variants)@) == if value@.len() > 0 && !char_vec_views(
            old(variants)@,
        ).contains(value@) {
            char_vec_views(old(variants)@).push(value@)
        } else {
            char_vec_views(old(variants)@)
        },
{
    if value.len() > 0 && !contains_chars_vec(variants, &value) {
        let ghost before = char_vec_views(variants@);
        variants.push(value);
        proof {
            assert(char_vec_views(variants@) =~= before.push(value@));
        }
    }
}

fn with_first(first: Vec<char>, s: &Vec<char>) -> (r: Vec<char>)
    requires
        s@.len() > 0,
    ensures
        r@ == first@ + s@.drop_first(),
{
    let mut out = first;
    let mut i: usize = 1;
    let ghost start = out@;
    while i < s.len()
        invariant
            1 <= i <= s@.len(),
            out@ == start + s@.subrange(1, i as int),
        decreases s@.len() - i,
    {
        out.push(s[i]);
        proof {
            assert(s@.subrange(1, i + 1) =~= s@.subrange(1, i as int).push(s@[i as int]));
        }
        i += 1;
    }
    proof {
        assert(s@.subrange(1, s@.len() as int) =~= s@.drop_first());
    }
    out
}

/// The spellings a surface is searched in, as char vectors.
pub fn scan_variant_chars(surface: &Vec<char>) -> (r: Vec<Vec<char>>)
    ensures
        char_vec_views(r@) == scan_variants(surface@),
{
    let mut variants: Vec<Vec<char>> = Vec::new();
    let ghost raw = raw_variants(surface@);
    push_variant(&mut variants, surface.clone());
    proof {
        assert(raw.take(1).drop_last() =~= Seq::<Seq<char>>::empty());
        assert(dedup_nonempty(Seq::<Seq<char>>::empty()) == Seq::<Seq<char>>::empty());
        assert(char_vec_views(variants@) == dedup_nonempty(raw.take(1)));
    }
    if surface.len() > 0 {
        let lower = with_first(char_to_lowercase(surface[0]), surface);
        push_variant(&mut variants, lower);
        proof {
            assert(raw.take(2).drop_last() =~= raw.take(1));
            assert(char_vec_views(variants@) == dedup_nonempty(raw.take(2)));
        }
        let upper = with_first(char_to_uppercase(surface[0]), surface);
        push_variant(&mut variants, upper);
        proof {
            assert(raw.take(3).drop_last() =~= raw.take(2));
            assert(raw.take(3) =~= raw);
        }
    } else {
        proof {
            assert(raw.take(1) =~= raw);
        }
    }
    variants
}

/// The spellings a surface is searched in: as given, then with its first
/// letter lowercased and uppercased, each once.
pub fn surface_scan_variants(surface: &str) -> (r: Vec<String>)
    ensures
        r@.map_values(|v: String| v@) == scan_variants(surface@),
{
    let variants = scan_variant_chars(&chars_of(surface));
    let ghost views = char_vec_views(variants@);
    let mut out: Vec<String> = Vec::new();
    let mut i: usize = 0;
    while i < variants.len()
        invariant
            views == char_vec_views(variants@),
            0 <= i <= variants@.len(),
            out@.map_values(|v: String| v@) == views.take(i as int),
        decreases variants@.len() - i,
    {
        let ghost before = out@.map_values(|v: String| v@);
        out.push(string_of(&variants[i]));
        proof {
            assert(out@.map_values(|v: String| v@) =~= before.push(views[i as int]));
            assert(views.take(i + 1) =~= views.take(i as int).push(views[i as int]));
        }
        i += 1;
    }
    proof {
        assert(views.take(views.len() as int) =~= views);
    }
    out
}

// ------------------------------------------------------------------------
// Matches at word boundaries.
// ------------------------------------------------------------------------
/// The starts of the non-overlapping matches of `v` in `t` from `i` on,
/// leftmost first, as `str::match_indices` finds them.
pub open spec fn match_starts(t: Seq<char>, v: Seq<char>, i: int) -> Seq<int>
    decreases t.len() - i,
{
    if v.len() == 0 || i < 0 || i + v.len() > t.len() {
        seq![]
    } else if occurs_at(t, v, i) {
        seq![i] + match_starts(t, v, i + v.len())
    } else {
        match_starts(t, v, i + 1)
    }
}

/// A letter, digit or `_`: what a surface may not touch.
pub open spec fn is_word_char(c: char) -> bool {
    is_alnum(c) || c == '_'
}

/// The range `[s, e)` of `t` has no word char just before or just after it.
pub open spec fn at_word_boundary(t: Seq<char>, s: int, e: int) -> bool {
    (s <= 0 || !is_word_char(t[s - 1])) && (e >= t.len() || !is_word_char(t[e]))
}

pub fn is_character_surface_word_char(c: char) -> (r: bool)
    ensures
        r == is_word_char(c),
{
    char_is_alphanumeric(c) || c == '_'
}

/// Whether a match from `start` to `end` stands at word boundaries, on char
/// offsets.
pub fn has_character_surface_boundary(t: &Vec<char>, start: usize, end: usize) -> (r: bool)
    requires
        start <= end <= t@.len(),
    ensures
        r == at_word_boundary(t@, start as int, end as int),
{
    let before_ok = start == 0 || !is_character_surface_word_char(t[start - 1]);
    let after_ok = end >= t.len() || !is_character_surface_word_char(t[end]);
    before_ok && after_ok
}

pub open spec fn usize_views(v: Seq<usize>) -> Seq<int> {
    v.map_values(|x: usize| x as int)
}

/// The starts of the matches of `v` in `t`.
pub fn match_start_positions(t: &Vec<char>, v: &Vec<char>) -> (r: Vec<usize>)
    ensures
        usize_views(r@) == match_starts(t@, v@, 0),
        forall|k: int| 0 <= k < r@.len() ==> #[trigger] r@[k] + v@.len() <= t@.len(),
{
    let mut found: Vec<usize> = Vec::new();
    if v.len() == 0 {
        proof {
            assert(usize_views(found@) =~= match_starts(t@, v@, 0));
        }
        return found;
    }
    let mut i: usize = 0;
    proof {
        assert(usize_views(found@) + match_starts(t@, v@, 0) =~= match_starts(t@, v@, 0));
    }
    while i <= t.len() && v.len() <= t.len() - i
        invariant
            v@.len() > 0,
            0 <= i,
            usize_views(found@) + match_starts(t@, v@, i as int) == match_starts(t@, v@, 0),
            forall|k: int| 0 <= k < found@.len() ==> #[trigger] found@[k] + v@.len() <= t@.len(),
        decreases t@.len() + 1 - i,
    {
        let ghost before = usize_views(found@);
        if matches_at(t, v, i) {
            found.push(i);
            proof {
                assert(usize_views(found@) =~= before.push(i as int));
                assert(before.push(i as int) + match_starts(t@, v@, i + v@.len()) =~= before + (
                seq![i as int] + match_starts(t@, v@, i + v@.len())));
            }
            i = i + v.len();
        } else {
            i = i + 1;
        }
    }
    proof {
        assert(match_starts(t@, v@, i as int) =~= Seq::<int>::empty());
        assert(usize_views(found@) + Seq::<int>::empty() =~= usize_views(found@));
    }
    found
}

/// The matches of each variant in turn, as `(start, end, text)`.
pub open spec fn variant_candidates(t: Seq<char>, vs: Seq<Seq<char>>) -> Seq<(int, int, Seq<char>)>
    decreases vs.len(),
{
    if vs.len() == 0 {
        seq![]
    } else {
        let v = vs.last();
        variant_candidates(t, vs.drop_last()) + match_starts(t, v, 0).map_values(
            |p: int| (p, p + v.len(), v),
        )
    }
}

/// The candidates at word boundaries, each range once (the first wins),
/// with the ranges seen.
pub open spec fn occurrence_scan(t: Seq<char>, cands: Seq<(int, int, Seq<char>)>) -> (Seq<(int, int, Seq<char>)>, Seq<(int, int)>)
    decreases cands.len(),
{
    if cands.len() == 0 {
        (seq![], seq![])
    } else {
        let (out, seen) = occurrence_scan(t, cands.drop_last());
        let (s, e, v) = cands.last();
        if !at_word_boundary(t, s, e) || seen.contains((s, e)) {
            (out, seen)
        } else {
            (out.push(cands.last()), seen.push((s, e)))
        }
    }
}

/// Where a surface occurs in a text: its spellings' matches at word
/// boundaries, each range once.
pub open spec fn surface_occurrences(t: Seq<char>, surface: Seq<char>) -> Seq<(int, int, Seq<char>)> {
    occurrence_scan(t, variant_candidates(t, scan_variants(surface))).0
}

pub open spec fn occurrence_views(v: Seq<ScannedCharacterOccurrence>) -> Seq<(int, int, Seq<char>)> {
    v.map_values(|o: ScannedCharacterOccurrence| (o.start_char as int, o.end_char as int, o.text@))
}

fn ranges_contain(seen: &Vec<(usize, usize)>, s: usize, e: usize) -> (r: bool)
    ensures
        r == seen@.map_values(|p: (usize, usize)| (p.0 as int, p.1 as int)).contains(
            (s as int, e as int),
        ),
{
    let ghost views = seen@.map_values(|p: (usize, usize)| (p.0 as int, p.1 as int));
    let mut i: usize = 0;
    while i < seen.len()
        invariant
            views == seen@.map_values(|p: (usize, usize)| (p.0 as int, p.1 as int)),
            0 <= i <= seen@.len(),
            forall|k: int| 0 <= k < i ==> views[k] != (s as int, e as int),
        decreases seen@.len() - i,
    {
        if seen[i].0 == s && seen[i].1 == e {
            assert(views[i as int] == (s as int, e as int));
            return true;
        }
        i += 1;
    }
    false
}

/// Where a surface, in any of its spellings, occurs in a chapter at word
/// boundaries.
pub fn find_surface_occurrences(
    chapter_text: &str,
    surface: &str,
    mention_type: &str,
    ambiguous: bool,
) -> (r: Vec<ScannedCharacterOccurrence>)
    requires
        chapter_text@.len() < i64::MAX,
    ensures
        occurrence_views(r@) == surface_occurrences(chapter_text@, surface@),
        forall|k: int|
            0 <= k < r@.len() ==> (#[trigger] r@[k]).mention_type@ == mention_type@
                && r@[k].ambiguous == ambiguous,
{
    let t = chars_of(chapter_text);
    let variants = scan_variant_chars(&chars_of(surface));
    let ghost vs = char_vec_views(variants@);
    let mut out: Vec<ScannedCharacterOccurrence> = Vec::new();
    let mut seen: Vec<(usize, usize)> = Vec::new();
    let mut vi: usize = 0;
    while vi < variants.len()
        invariant
            t@ == chapter_text@,
            t@.len() < i64::MAX,
            vs == char_vec_views(variants@),
            vs == scan_variants(surface@),
            0 <= vi <= variants@.len(),
            (occurrence_views(out@), seen@.map_values(|p: (usize, usize)| (p.0 as int, p.1 as int)))
                == occurrence_scan(t@, variant_candidates(t@, vs.take(vi as int))),
            forall|k: int|
                0 <= k < out@.len() ==> (#[trigger] out@[k]).mention_type@ == mention_type@
                    && out@[k].ambiguous == ambiguous,
        decreases variants@.len() - vi,
    {
        let v = &variants[vi];
        let starts = match_start_positions(&t, v);
        let ghost base = variant_candidates(t@, vs.take(vi as int));
        let ghost added = match_starts(t@, v@, 0).map_values(|p: int| (p, p + v@.len(), v@));
        proof {
            assert(vs.take(vi + 1).drop_last() =~= vs.take(vi as int));
            assert(vs.take(vi + 1).last() == v@);
            assert(variant_candidates(t@, vs.take(vi + 1)) == base + added);
            assert(base + added.take(0) =~= base);
        }
        let mut j: usize = 0;
        while j < starts.len()
            invariant
                t@ == chapter_text@,
                t@.len() < i64::MAX,
                0 <= j <= starts@.len(),
                usize_views(starts@) == match_starts(t@, v@, 0),
                forall|k: int| 0 <= k < starts@.len() ==> #[trigger] starts@[k] + v@.len() <= t@.len(),
                added == match_starts(t@, v@, 0).map_values(|p: int| (p, p + v@.len(), v@)),
                (occurrence_views(out@), seen@.map_values(|p: (usize, usize)| (p.0 as int, p.1 as int)))
                    == occurrence_scan(t@, base + added.take(j as int)),
                forall|k: int|
                    0 <= k < out@.len() ==> (#[trigger] out@[k]).mention_type@ == mention_type@
                        && out@[k].ambiguous == ambiguous,
            decreases starts@.len() - j,
        {
            let s = starts[j];
            let e = s + v.len();
            proof {
                assert(usize_views(starts@)[j as int] == s as int);
                assert(added[j as int] == (s as int, e as int, v@));
                assert((base + added.take(j + 1)).drop_last() =~= base + added.take(j as int));
                assert((base + added.take(j + 1)).last() == added[j as int]);
            }
            if has_character_surface_boundary(&t, s, e) && !ranges_contain(&seen, s, e) {
                let ghost out_before = occurrence_views(out@);
                let ghost seen_before = seen@.map_values(|p: (usize, usize)| (p.0 as int, p.1 as int));
                out.push(
                    ScannedCharacterOccurrence {
                        text: string_of(v),
                        start_char: s as i64,
                        end_char: e as i64,
                        mention_type: owned(mention_type),
                        ambiguous,
                    },
                );
                seen.push((s, e));
                proof {
                    assert(occurrence_views(out@) =~= out_before.push((s as int, e as int, v@)));
                    assert(seen@.map_values(|p: (usize, usize)| (p.0 as int, p.1 as int))
                        =~= seen_before.push((s as int, e as int)));
                }
            }
            j += 1;
        }
        proof {
            assert(added.take(starts@.len() as int) =~= added);
        }
        vi += 1;
    }
    proof {
        assert(vs.take(vs.len() as int) =~= vs);
    }
    out
}

// ------------------------------------------------------------------------
// Ordering and choosing occurrences.
// ------------------------------------------------------------------------
/// An occurrence as the specifications see it: start, end, text, kind of
/// mention, and whether its surface is ambiguous.
pub type OccView = (int, int, Seq<char>, Seq<char>, bool);

pub open spec fn occ_view(o: ScannedCharacterOccurrence) -> OccView {
    (o.start_char as int, o.end_char as int, o.text@, o.mention_type@, o.ambiguous)
}

pub open spec fn occ_views(v: Seq<ScannedCharacterOccurrence>) -> Seq<OccView> {
    v.map_values(|o: ScannedCharacterOccurrence| occ_view(o))
}

pub open spec fn occ_len(o: OccView) -> int {
    o.1 - o.0
}

/// The order occurrences are chosen in: longer first, then earlier, then by text.
pub open spec fn selection_before(a: OccView, b: OccView) -> bool {
    occ_len(a) > occ_len(b) || (occ_len(a) == occ_len(b) && (a.0 < b.0 || (a.0 == b.0 && seq_less(
        a.2,
        b.2,
    ))))
}

/// The order of the text: earlier first, then the longer one first.
pub open spec fn position_before(a: OccView, b: OccView) -> bool {
    a.0 < b.0 || (a.0 == b.0 && a.1 > b.1)
}

pub open spec fn occ_before(a: OccView, b: OccView, by_position: bool) -> bool {
    if by_position {
        position_before(a, b)
    } else {
        selection_before(a, b)
    }
}

/// Where `x` goes into `sorted[..p]`: after every element it does not come before.
pub open spec fn insert_pos(sorted: Seq<OccView>, x: OccView, by_position: bool, p: int) -> int
    decreases p,
{
    if p > 0 && p <= sorted.len() && occ_before(x, sorted[p - 1], by_position) {
        insert_pos(sorted, x, by_position, p - 1)
    } else {
        p
    }
}

proof fn lemma_insert_pos(sorted: Seq<OccView>, x: OccView, by_position: bool, p: int)
    requires
        0 <= p <= sorted.len(),
    ensures
        0 <= insert_pos(sorted, x, by_position, p) <= p,
    decreases p,
{
    if p > 0 && occ_before(x, sorted[p - 1], by_position) {
        lemma_insert_pos(sorted, x, by_position, p - 1);
    }
}

/// A stable sort: each element in turn goes after every earlier element it
/// does not come before. (For these orders, which compare by keys, this is the
/// order `slice::sort_by` gives.)
pub open spec fn stable_sort(s: Seq<OccView>, by_position: bool) -> Seq<OccView>
    decreases s.len(),
{
    if s.len() == 0 {
        seq![]
    } else {
        let prev = stable_sort(s.drop_last(), by_position);
        prev.insert(insert_pos(prev, s.last(), by_position, prev.len() as int), s.last())
    }
}

proof fn lemma_stable_sort_len(s: Seq<OccView>, by_position: bool)
    ensures
        stable_sort(s, by_position).len() == s.len(),
    decreases s.len(),
{
    if s.len() > 0 {
        let prev = stable_sort(s.drop_last(), by_position);
        lemma_stable_sort_len(s.drop_last(), by_position);
        lemma_insert_pos(prev, s.last(), by_position, prev.len() as int);
    }
}

/// A stable sort keeps the number of elements.
pub proof fn lemma_stable_sort_len_pub(s: Seq<OccView>, by_position: bool)
    ensures
        stable_sort(s, by_position).len() == s.len(),
{
    lemma_stable_sort_len(s, by_position);
}

fn occ_before_exec(a: &ScannedCharacterOccurrence, b: &ScannedCharacterOccurrence, by_position: bool) -> (r: bool)
    ensures
        r == occ_before(occ_view(*a), occ_view(*b), by_position),
{
    if by_position {
        a.start_char < b.start_char || (a.start_char == b.start_char && a.end_char > b.end_char)
    } else {
        let la = a.end_char as i128 - a.start_char as i128;
        let lb = b.end_char as i128 - b.start_char as i128;
        la > lb || (la == lb && (a.start_char < b.start_char || (a.start_char == b.start_char
            && str_less(a.text.as_str(), b.text.as_str()))))
    }
}

/// Sorts occurrences stably, by selection order or by position.
pub fn sort_occurrences(occurrences: Vec<ScannedCharacterOccurrence>, by_position: bool) -> (r: Vec<ScannedCharacterOccurrence>)
    ensures
        occ_views(r@) == stable_sort(occ_views(occurrences@), by_position),
{
    let ghost original = occ_views(occurrences@);
    let ghost items = occurrences@;
    let mut out: Vec<ScannedCharacterOccurrence> = Vec::new();
    let mut rest = occurrences;
    let mut taken: usize = 0;
    let total = rest.len();
    proof {
        assert(original.take(0) =~= Seq::<OccView>::empty());
        assert(items.skip(0) =~= items);
        assert(occ_views(out@) =~= Seq::<OccView>::empty());
    }
    while rest.len() > 0
        invariant
            taken + rest@.len() == original.len(),
            original.len() == total,
            original == occ_views(items),
            rest@ == items.skip(taken as int),
            occ_views(out@) == stable_sort(original.take(taken as int), by_position),
        decreases rest@.len(),
    {
        let x = rest.remove(0);
        proof {
            assert(x == items[taken as int]);
            assert(rest@ =~= items.skip(taken + 1));
            assert(original.take(taken + 1).drop_last() =~= original.take(taken as int));
            assert(original.take(taken + 1).last() == occ_view(x));
            lemma_stable_sort_len(original.take(taken as int), by_position);
        }
        let mut p = out.len();
        while p > 0 && occ_before_exec(&x, &out[p - 1], by_position)
            invariant
                0 <= p <= out@.len(),
                insert_pos(occ_views(out@), occ_view(x), by_position, out@.len() as int)
                    == insert_pos(occ_views(out@), occ_view(x), by_position, p as int),
            decreases p,
        {
            p -= 1;
        }
        let ghost before = occ_views(out@);
        out.insert(p, x);
        proof {
            assert(occ_views(out@) =~= before.insert(p as int, occ_view(x)));
        }
        taken += 1;
    }
    proof {
        assert(original.take(original.len() as int) =~= original);
    }
    out
}

/// Two occurrences share a char.
pub open spec fn occurrences_overlap(a: OccView, b: OccView) -> bool {
    a.0 < b.1 && b.0 < a.1
}

pub fn character_mentions_overlap(left: &ScannedCharacterOccurrence, right: &ScannedCharacterOccurrence) -> (r: bool)
    ensures
        r == occurrences_overlap(occ_view(*left), occ_view(*right)),
{
    left.start_char < right.end_char && right.start_char < left.end_char
}

/// Each occurrence in turn is kept unless it overlaps one kept before.
pub open spec fn greedy_select(s: Seq<OccView>) -> Seq<OccView>
    decreases s.len(),
{
    if s.len() == 0 {
        seq![]
    } else {
        let prev = greedy_select(s.drop_last());
        if exists|k: int| 0 <= k < prev.len() && occurrences_overlap(#[trigger] prev[k], s.last()) {
            prev
        } else {
            prev.push(s.last())
        }
    }
}

/// The occurrences kept: the longest first, none overlapping another, in
/// text order.
pub open spec fn non_overlapping(s: Seq<OccView>) -> Seq<OccView> {
    stable_sort(greedy_select(stable_sort(s, false)), true)
}

fn overlaps_any(selected: &Vec<ScannedCharacterOccurrence>, x: &ScannedCharacterOccurrence) -> (r: bool)
    ensures
        r == exists|k: int|
            0 <= k < selected@.len() && occurrences_overlap(
                #[trigger] occ_views(selected@)[k],
                occ_view(*x),
            ),
{
    let mut i: usize = 0;
    while i < selected.len()
        invariant
            0 <= i <= selected@.len(),
            forall|k: int|
                0 <= k < i ==> !occurrences_overlap(#[trigger] occ_views(selected@)[k], occ_view(*x)),
        decreases selected@.len() - i,
    {
        if character_mentions_overlap(&selected[i], x) {
            assert(occ_views(selected@)[i as int] == occ_view(selected@[i as int]));
            return true;
        }
        i += 1;
    }
    false
}

/// Keeps, taking the occurrences longest first, each one that overlaps none
/// kept before it; gives the kept ones in text order.
pub fn select_non_overlapping_occurrences(occurrences: Vec<ScannedCharacterOccurrence>) -> (r: Vec<ScannedCharacterOccurrence>)
    ensures
        occ_views(r@) == non_overlapping(occ_views(occurrences@)),
        pairwise_disjoint(occ_views(r@)),
        forall|i: int, j: int|
            0 <= i < j < r@.len() ==> (#[trigger] r@[i]).start_char <= (#[trigger] r@[j]).start_char,
        forall|k: int|
            0 <= k < occurrences@.len() && !occ_views(r@).contains(
                #[trigger] stable_sort(occ_views(occurrences@), false)[k],
            ) ==> exists|j: int|
                0 <= j < k && occ_views(r@).contains(stable_sort(occ_views(occurrences@), false)[j])
                    && occurrences_overlap(
                    #[trigger] stable_sort(occ_views(occurrences@), false)[j],
                    stable_sort(occ_views(occurrences@), false)[k],
                ),
{
    proof {
        let v = occ_views(occurrences@);
        lemma_selected_occurrences_disjoint(v);
        lemma_selected_in_text_order(v);
        lemma_dropped_occurrence_overlaps_kept(v);
        lemma_stable_sort_len(v, false);
    }
    let sorted = sort_occurrences(occurrences, false);
    let ghost original = occ_views(sorted@);
    let ghost items = sorted@;
    let mut rest = sorted;
    let mut selected: Vec<ScannedCharacterOccurrence> = Vec::new();
    let mut taken: usize = 0;
    let total = rest.len();
    proof {
        assert(original.take(0) =~= Seq::<OccView>::empty());
        assert(items.skip(0) =~= items);
        assert(occ_views(selected@) =~= Seq::<OccView>::empty());
    }
    while rest.len() > 0
        invariant
            taken + rest@.len() == original.len(),
            original.len() == total,
            original == occ_views(items),
            rest@ == items.skip(taken as int),
            occ_views(selected@) == greedy_select(original.take(taken as int)),
        decreases rest@.len(),
    {
        let x = rest.remove(0);
        proof {
            assert(x == items[taken as int]);
            assert(rest@ =~= items.skip(taken + 1));
            assert(original.take(taken + 1).drop_last() =~= original.take(taken as int));
            assert(original.take(taken + 1).last() == occ_view(x));
        }
        if !overlaps_any(&selected, &x) {
            let ghost before = occ_views(selected@);
            selected.push(x);
            proof {
                assert(occ_views(selected@) =~= before.push(occ_view(x)));
            }
        }
        taken += 1;
    }
    proof {
        assert(original.take(original.len() as int) =~= original);
    }
    let r = sort_occurrences(selected, true);
    proof {
        let rv = occ_views(r@);
        assert forall|i: int, j: int| 0 <= i < j < r@.len() implies (#[trigger] r@[i]).start_char
            <= (#[trigger] r@[j]).start_char by {
            assert(rv[i] == occ_view(r@[i]) && rv[j] == occ_view(r@[j]));
            assert(rv[i].0 <= rv[j].0);
        }
    }
    r
}

// ------------------------------------------------------------------------
// No two kept occurrences overlap.
// ------------------------------------------------------------------------
/// No two occurrences at different places in `s` overlap.
pub open spec fn pairwise_disjoint(s: Seq<OccView>) -> bool {
    forall|i: int, j: int|
        0 <= i < s.len() && 0 <= j < s.len() && i != j ==> !occurrences_overlap(
            #[trigger] s[i],
            #[trigger] s[j],
        )
}

proof fn lemma_greedy_disjoint(s: Seq<OccView>)
    ensures
        pairwise_disjoint(greedy_select(s)),
    decreases s.len(),
{
    if s.len() > 0 {
        lemma_greedy_disjoint(s.drop_last());
        let prev = greedy_select(s.drop_last());
        let x = s.last();
        if !(exists|k: int| 0 <= k < prev.len() && occurrences_overlap(#[trigger] prev[k], x)) {
            let g = prev.push(x);
            assert forall|i: int, j: int|
                0 <= i < g.len() && 0 <= j < g.len() && i != j implies !occurrences_overlap(
                #[trigger] g[i],
                #[trigger] g[j],
            ) by {
                if i == prev.len() {
                    assert(!occurrences_overlap(prev[j], x));
                } else if j == prev.len() {
                    assert(!occurrences_overlap(prev[i], x));
                } else {
                    assert(g[i] == prev[i] && g[j] == prev[j]);
                }
            }
        }
    }
}

proof fn lemma_sort_elements(s: Seq<OccView>, by_position: bool)
    ensures
        forall|e: OccView|
            #[trigger] stable_sort(s, by_position).contains(e) ==> s.contains(e),
    decreases s.len(),
{
    if s.len() > 0 {
        let prev = stable_sort(s.drop_last(), by_position);
        lemma_sort_elements(s.drop_last(), by_position);
        lemma_stable_sort_len(s.drop_last(), by_position);
        let p = insert_pos(prev, s.last(), by_position, prev.len() as int);
        lemma_insert_pos(prev, s.last(), by_position, prev.len() as int);
        let r = prev.insert(p, s.last());
        assert forall|e: OccView| #[trigger] r.contains(e) implies s.contains(e) by {
            let k = choose|k: int| 0 <= k < r.len() && r[k] == e;
            if k == p {
                assert(s[s.len() - 1] == e);
            } else {
                let m = if k < p {
                    k
                } else {
                    k - 1
                };
                assert(r[k] == prev[m]);
                assert(prev.contains(e));
                assert(s.drop_last().contains(e));
                let n = choose|n: int| 0 <= n < s.drop_last().len() && s.drop_last()[n] == e;
                assert(s[n] == e);
            }
        }
    }
}

proof fn lemma_sort_disjoint(s: Seq<OccView>, by_position: bool)
    requires
        pairwise_disjoint(s),
    ensures
        pairwise_disjoint(stable_sort(s, by_position)),
    decreases s.len(),
{
    if s.len() > 0 {
        let d = s.drop_last();
        assert(pairwise_disjoint(d)) by {
            assert forall|i: int, j: int|
                0 <= i < d.len() && 0 <= j < d.len() && i != j implies !occurrences_overlap(
                #[trigger] d[i],
                #[trigger] d[j],
            ) by {
                assert(d[i] == s[i] && d[j] == s[j]);
            }
        }
        lemma_sort_disjoint(d, by_position);
        lemma_sort_elements(d, by_position);
        lemma_stable_sort_len(d, by_position);
        let prev = stable_sort(d, by_position);
        let x = s.last();
        let p = insert_pos(prev, x, by_position, prev.len() as int);
        lemma_insert_pos(prev, x, by_position, prev.len() as int);
        let r = prev.insert(p, x);
        assert forall|k: int| 0 <= k < prev.len() implies !occurrences_overlap(
            #[trigger] prev[k],
            x,
        ) && !occurrences_overlap(x, prev[k]) by {
            assert(prev.contains(prev[k]));
            assert(d.contains(prev[k]));
            let n = choose|n: int| 0 <= n < d.len() && d[n] == prev[k];
            assert(s[n] == prev[k]);
            assert(s[s.len() - 1] == x);
        }
        assert forall|i: int, j: int|
            0 <= i < r.len() && 0 <= j < r.len() && i != j implies !occurrences_overlap(
            #[trigger] r[i],
            #[trigger] r[j],
        ) by {
            let mi = if i < p {
                i
            } else {
                i - 1
            };
            let mj = if j < p {
                j
            } else {
                j - 1
            };
            if i == p {
                assert(r[j] == prev[mj]);
            } else if j == p {
                assert(r[i] == prev[mi]);
            } else {
                assert(r[i] == prev[mi] && r[j] == prev[mj]);
            }
        }
    }
}

/// No two occurrences kept by `select_non_overlapping_occurrences` overlap.
pub proof fn lemma_selected_occurrences_disjoint(s: Seq<OccView>)
    ensures
        pairwise_disjoint(non_overlapping(s)),
{
    let g = greedy_select(stable_sort(s, false));
    lemma_greedy_disjoint(stable_sort(s, false));
    lemma_sort_disjoint(g, true);
}

// ------------------------------------------------------------------------
// The kept occurrences come in text order, and each one left out overlaps
// one kept ahead of it.
// ------------------------------------------------------------------------
/// `a` does not come after `b` in `by_position` order.
pub open spec fn occ_not_after(a: OccView, b: OccView, by_position: bool) -> bool {
    !occ_before(b, a, by_position)
}

/// Each element does not come after any later one.
pub open spec fn sorted_by(s: Seq<OccView>, by_position: bool) -> bool {
    forall|i: int, j: int|
        0 <= i < j < s.len() ==> occ_not_after(#[trigger] s[i], #[trigger] s[j], by_position)
}

proof fn lemma_insert_pos_bounds(sorted: Seq<OccView>, x: OccView, by_position: bool, p: int)
    requires
        0 <= p <= sorted.len(),
    ensures
        forall|k: int|
            insert_pos(sorted, x, by_position, p) <= k < p ==> occ_before(
                x,
                #[trigger] sorted[k],
                by_position,
            ),
        insert_pos(sorted, x, by_position, p) > 0 ==> !occ_before(
            x,
            sorted[insert_pos(sorted, x, by_position, p) - 1],
            by_position,
        ),
    decreases p,
{
    if p > 0 && occ_before(x, sorted[p - 1], by_position) {
        lemma_insert_pos_bounds(sorted, x, by_position, p - 1);
    }
}

proof fn lemma_position_sorted(s: Seq<OccView>)
    ensures
        sorted_by(stable_sort(s, true), true),
    decreases s.len(),
{
    if s.len() > 0 {
        let d = s.drop_last();
        lemma_position_sorted(d);
        lemma_stable_sort_len(d, true);
        let prev = stable_sort(d, true);
        let x = s.last();
        let n = prev.len() as int;
        let p = insert_pos(prev, x, true, n);
        lemma_insert_pos(prev, x, true, n);
        lemma_insert_pos_bounds(prev, x, true, n);
        let r = prev.insert(p, x);
        assert(r == stable_sort(s, true));
        assert forall|i: int, j: int| 0 <= i < j < r.len() implies occ_not_after(
            #[trigger] r[i],
            #[trigger] r[j],
            true,
        ) by {
            if i == p {
                assert(r[j] == prev[j - 1]);
                assert(occ_before(x, prev[j - 1], true));
            } else if j == p {
                assert(r[i] == prev[i]);
                assert(!occ_before(x, prev[p - 1], true));
                if i < p - 1 {
                    assert(occ_not_after(prev[i], prev[p - 1], true));
                }
            } else {
                let mi = if i < p {
                    i
                } else {
                    i - 1
                };
                let mj = if j < p {
                    j
                } else {
                    j - 1
                };
                assert(r[i] == prev[mi] && r[j] == prev[mj]);
                assert(occ_not_after(prev[mi], prev[mj], true));
            }
        }
    }
}

proof fn lemma_sort_keeps_elements(s: Seq<OccView>, by_position: bool)
    ensures
        forall|e: OccView| #[trigger] s.contains(e) ==> stable_sort(s, by_position).contains(e),
    decreases s.len(),
{
    if s.len() > 0 {
        let d = s.drop_last();
        lemma_sort_keeps_elements(d, by_position);
        lemma_stable_sort_len(d, by_position);
        let prev = stable_sort(d, by_position);
        let x = s.last();
        let p = insert_pos(prev, x, by_position, prev.len() as int);
        lemma_insert_pos(prev, x, by_position, prev.len() as int);
        let r = prev.insert(p, x);
        assert forall|e: OccView| #[trigger] s.contains(e) implies r.contains(e) by {
            let k = choose|k: int| 0 <= k < s.len() && s[k] == e;
            if k == s.len() - 1 {
                assert(r[p] == e);
            } else {
                assert(d[k] == e);
                assert(d.contains(e));
                assert(prev.contains(e));
                let m = choose|m: int| 0 <= m < prev.len() && prev[m] == e;
                if m < p {
                    assert(r[m] == e);
                } else {
                    assert(r[m + 1] == e);
                }
            }
        }
    }
}

proof fn lemma_greedy_from(s: Seq<OccView>)
    ensures
        forall|e: OccView| #[trigger] greedy_select(s).contains(e) ==> s.contains(e),
    decreases s.len(),
{
    if s.len() > 0 {
        let d = s.drop_last();
        lemma_greedy_from(d);
        let prev = greedy_select(d);
        assert forall|e: OccView| #[trigger] greedy_select(s).contains(e) implies s.contains(e) by {
            let g = greedy_select(s);
            let k = choose|k: int| 0 <= k < g.len() && g[k] == e;
            if k < prev.len() {
                assert(prev[k] == e);
                assert(prev.contains(e));
                let n = choose|n: int| 0 <= n < d.len() && d[n] == e;
                assert(s[n] == e);
            } else {
                assert(s[s.len() - 1] == e);
            }
        }
    }
}

proof fn lemma_greedy_grows(s: Seq<OccView>)
    requires
        s.len() > 0,
    ensures
        forall|e: OccView|
            #[trigger] greedy_select(s.drop_last()).contains(e) ==> greedy_select(s).contains(e),
{
    let prev = greedy_select(s.drop_last());
    assert forall|e: OccView| #[trigger] prev.contains(e) implies greedy_select(s).contains(e) by {
        let k = choose|k: int| 0 <= k < prev.len() && prev[k] == e;
        assert(prev.push(s.last())[k] == e);
    }
}

/// Each element of `s` is kept by the greedy pass, or overlaps an element
/// before it that is kept.
proof fn lemma_greedy_dropped(s: Seq<OccView>)
    ensures
        forall|k: int|
            0 <= k < s.len() && !greedy_select(s).contains(#[trigger] s[k]) ==> exists|j: int|
                0 <= j < k && greedy_select(s).contains(s[j]) && occurrences_overlap(
                    #[trigger] s[j],
                    s[k],
                ),
    decreases s.len(),
{
    if s.len() > 0 {
        let d = s.drop_last();
        lemma_greedy_dropped(d);
        lemma_greedy_from(d);
        lemma_greedy_grows(s);
        let prev = greedy_select(d);
        let g = greedy_select(s);
        let x = s.last();
        assert forall|k: int|
            0 <= k < s.len() && !g.contains(#[trigger] s[k]) implies exists|j: int|
                0 <= j < k && g.contains(s[j]) && occurrences_overlap(#[trigger] s[j], s[k]) by {
            if k < d.len() {
                assert(d[k] == s[k]);
                if prev.contains(d[k]) {
                    assert(g.contains(s[k]));
                } else {
                    let j = choose|j: int|
                        0 <= j < k && prev.contains(d[j]) && occurrences_overlap(
                            #[trigger] d[j],
                            d[k],
                        );
                    assert(d[j] == s[j]);
                    assert(g.contains(s[j]));
                }
            } else {
                if exists|m: int| 0 <= m < prev.len() && occurrences_overlap(#[trigger] prev[m], x) {
                    let m = choose|m: int| 0 <= m < prev.len() && occurrences_overlap(#[trigger] prev[m], x);
                    assert(prev.contains(prev[m]));
                    assert(d.contains(prev[m]));
                    let j = choose|j: int| 0 <= j < d.len() && d[j] == prev[m];
                    assert(s[j] == prev[m]);
                    assert(g.contains(s[j]));
                } else {
                    assert(g[prev.len() as int] == x);
                }
            }
        }
    }
}

/// The kept occurrences come in text order: by start, and at one start the
/// longer first.
pub proof fn lemma_selected_in_text_order(s: Seq<OccView>)
    ensures
        sorted_by(non_overlapping(s), true),
        forall|i: int, j: int|
            0 <= i < j < non_overlapping(s).len() ==> (#[trigger] non_overlapping(s)[i]).0
                <= (#[trigger] non_overlapping(s)[j]).0,
{
    lemma_position_sorted(greedy_select(stable_sort(s, false)));
}

/// Taken in selection order (longer first, then earlier), every occurrence
/// that is left out overlaps one that comes before it and is kept.
pub proof fn lemma_dropped_occurrence_overlaps_kept(s: Seq<OccView>)
    ensures
        forall|k: int|
            0 <= k < stable_sort(s, false).len() && !non_overlapping(s).contains(
                #[trigger] stable_sort(s, false)[k],
            ) ==> exists|j: int|
                0 <= j < k && non_overlapping(s).contains(stable_sort(s, false)[j])
                    && occurrences_overlap(#[trigger] stable_sort(s, false)[j], stable_sort(s, false)[k]),
{
    let t = stable_sort(s, false);
    let g = greedy_select(t);
    lemma_greedy_dropped(t);
    lemma_sort_keeps_elements(g, true);
    lemma_sort_elements(g, true);
}

// ------------------------------------------------------------------------
// Every occurrence found is the surface's text, at word boundaries.
// ------------------------------------------------------------------------
proof fn lemma_match_starts_occur(t: Seq<char>, v: Seq<char>, i: int)
    ensures
        forall|k: int|
            0 <= k < match_starts(t, v, i).len() ==> v.len() > 0 && occurs_at(
                t,
                v,
                #[trigger] match_starts(t, v, i)[k],
            ),
    decreases t.len() - i,
{
    if v.len() == 0 || i < 0 || i + v.len() > t.len() {
    } else if occurs_at(t, v, i) {
        lemma_match_starts_occur(t, v, i + v.len());
        let rest = match_starts(t, v, i + v.len());
        let m = match_starts(t, v, i);
        assert(m == seq![i] + rest);
        assert forall|k: int| 0 <= k < m.len() implies v.len() > 0 && occurs_at(t, v, #[trigger] m[k]) by {
            if k == 0 {
                assert(m[0] == i);
            } else {
                assert(m[k] == rest[k - 1]);
            }
        }
    } else {
        lemma_match_starts_occur(t, v, i + 1);
        assert(match_starts(t, v, i) == match_starts(t, v, i + 1));
    }
}

/// Every candidate is the text of its range, not empty.
pub open spec fn candidate_in_text(t: Seq<char>, c: (int, int, Seq<char>)) -> bool {
    0 <= c.0 < c.1 <= t.len() && t.subrange(c.0, c.1) == c.2
}

proof fn lemma_variant_candidates_in_text(t: Seq<char>, vs: Seq<Seq<char>>)
    ensures
        forall|k: int|
            0 <= k < variant_candidates(t, vs).len() ==> candidate_in_text(
                t,
                #[trigger] variant_candidates(t, vs)[k],
            ),
    decreases vs.len(),
{
    if vs.len() > 0 {
        let v = vs.last();
        lemma_variant_candidates_in_text(t, vs.drop_last());
        lemma_match_starts_occur(t, v, 0);
        let prev = variant_candidates(t, vs.drop_last());
        let added = match_starts(t, v, 0).map_values(|p: int| (p, p + v.len(), v));
        let all = variant_candidates(t, vs);
        assert(all == prev + added);
        assert forall|k: int| 0 <= k < all.len() implies candidate_in_text(t, #[trigger] all[k]) by {
            if k < prev.len() {
                assert(all[k] == prev[k]);
            } else {
                let m = match_starts(t, v, 0);
                assert(all[k] == added[k - prev.len()]);
                assert(occurs_at(t, v, m[k - prev.len()]));
            }
        }
    }
}

proof fn lemma_occurrence_scan_kept(t: Seq<char>, cands: Seq<(int, int, Seq<char>)>)
    requires
        forall|k: int| 0 <= k < cands.len() ==> candidate_in_text(t, #[trigger] cands[k]),
    ensures
        forall|k: int|
            0 <= k < occurrence_scan(t, cands).0.len() ==> {
                let o = #[trigger] occurrence_scan(t, cands).0[k];
                &&& candidate_in_text(t, o)
                &&& (o.0 == 0 || !is_word_char(t[o.0 - 1]))
                &&& (o.1 == t.len() || !is_word_char(t[o.1]))
            },
    decreases cands.len(),
{
    if cands.len() > 0 {
        let d = cands.drop_last();
        assert forall|k: int| 0 <= k < d.len() implies candidate_in_text(t, #[trigger] d[k]) by {
            assert(d[k] == cands[k]);
        }
        lemma_occurrence_scan_kept(t, d);
        let prev = occurrence_scan(t, d).0;
        let out = occurrence_scan(t, cands).0;
        let c = cands.last();
        assert(candidate_in_text(t, cands[cands.len() - 1]));
        assert forall|k: int| 0 <= k < out.len() implies {
            let o = #[trigger] out[k];
            &&& candidate_in_text(t, o)
            &&& (o.0 == 0 || !is_word_char(t[o.0 - 1]))
            &&& (o.1 == t.len() || !is_word_char(t[o.1]))
        } by {
            if k < prev.len() {
                assert(out[k] == prev[k]);
            } else {
                assert(out[k] == c);
                assert(at_word_boundary(t, c.0, c.1));
            }
        }
    }
}

/// Every occurrence found for a surface is a non-empty range of the text
/// holding that text, and it stands at word boundaries: the char just before
/// it (if any) and the char just after it (if any) are neither alphanumeric
/// nor `_`.
pub proof fn lemma_occurrences_at_word_boundaries(t: Seq<char>, surface: Seq<char>)
    ensures
        forall|k: int|
            0 <= k < surface_occurrences(t, surface).len() ==> {
                let o = #[trigger] surface_occurrences(t, surface)[k];
                &&& 0 <= o.0 < o.1 <= t.len()
                &&& t.subrange(o.0, o.1) == o.2
                &&& (o.0 == 0 || !(is_alnum(t[o.0 - 1]) || t[o.0 - 1] == '_'))
                &&& (o.1 == t.len() || !(is_alnum(t[o.1]) || t[o.1] == '_'))
            },
{
    let cands = variant_candidates(t, scan_variants(surface));
    lemma_variant_candidates_in_text(t, scan_variants(surface));
    lemma_occurrence_scan_kept(t, cands);
}

proof fn lemma_occurrence_scan_complete(t: Seq<char>, cands: Seq<(int, int, Seq<char>)>)
    ensures
        occurrence_scan(t, cands).1.len() == occurrence_scan(t, cands).0.len(),
        forall|j: int|
            0 <= j < occurrence_scan(t, cands).0.len() ==> #[trigger] occurrence_scan(t, cands).1[j] == (
                occurrence_scan(t, cands).0[j].0,
                occurrence_scan(t, cands).0[j].1,
            ),
        forall|k: int|
            0 <= k < cands.len() && at_word_boundary(t, (#[trigger] cands[k]).0, cands[k].1) ==> exists|j: int|
                0 <= j < occurrence_scan(t, cands).0.len() && (#[trigger] occurrence_scan(t, cands).0[j]).0
                    == cands[k].0 && occurrence_scan(t, cands).0[j].1 == cands[k].1,
    decreases cands.len(),
{
    if cands.len() > 0 {
        let d = cands.drop_last();
        lemma_occurrence_scan_complete(t, d);
        let (out0, seen0) = occurrence_scan(t, d);
        let (out, seen) = occurrence_scan(t, cands);
        let c = cands.last();
        assert forall|j: int| 0 <= j < out.len() implies #[trigger] seen[j] == (out[j].0, out[j].1) by {
            if j < out0.len() {
                assert(out[j] == out0[j] && seen[j] == seen0[j]);
            }
        }
        assert forall|k: int| 0 <= k < cands.len() && at_word_boundary(t, (#[trigger] cands[k]).0, cands[k].1)
            implies exists|j: int| 0 <= j < out.len() && (#[trigger] out[j]).0 == cands[k].0 && out[j].1 == cands[k].1 by {
            if k < d.len() {
                assert(cands[k] == d[k]);
                let j = choose|j: int| 0 <= j < out0.len() && (#[trigger] out0[j]).0 == d[k].0 && out0[j].1 == d[k].1;
                assert(out[j] == out0[j]);
            } else {
                assert(cands[k] == c);
                if seen0.contains((c.0, c.1)) {
                    let j = choose|j: int| 0 <= j < seen0.len() && seen0[j] == (c.0, c.1);
                    assert(seen0[j] == (out0[j].0, out0[j].1));
                    assert(out[j] == out0[j]);
                } else {
                    assert(out[out0.len() as int] == c);
                }
            }
        }
    }
}

proof fn lemma_variant_candidates_has(t: Seq<char>, vs: Seq<Seq<char>>, vi: int, m: int)
    requires
        0 <= vi < vs.len(),
        0 <= m < match_starts(t, vs[vi], 0).len(),
    ensures
        exists|k: int|
            0 <= k < variant_candidates(t, vs).len() && #[trigger] variant_candidates(t, vs)[k] == (
                match_starts(t, vs[vi], 0)[m],
                match_starts(t, vs[vi], 0)[m] + vs[vi].len(),
                vs[vi],
            ),
    decreases vs.len(),
{
    let prev = variant_candidates(t, vs.drop_last());
    let all = variant_candidates(t, vs);
    let v = vs.last();
    let added = match_starts(t, v, 0).map_values(|p: int| (p, p + v.len(), v));
    assert(all == prev + added);
    if vi == vs.len() - 1 {
        assert(all[prev.len() + m] == added[m]);
    } else {
        assert(vs.drop_last()[vi] == vs[vi]);
        lemma_variant_candidates_has(t, vs.drop_last(), vi, m);
        let k = choose|k: int|
            0 <= k < prev.len() && #[trigger] prev[k] == (
                match_starts(t, vs[vi], 0)[m],
                match_starts(t, vs[vi], 0)[m] + vs[vi].len(),
                vs[vi],
            );
        assert(all[k] == prev[k]);
    }
}

/// No match is missed: for every spelling of the surface and every match
/// of it in the text (leftmost first, not overlapping) that stands at word
/// boundaries, some occurrence found has exactly that range.
pub proof fn lemma_boundary_matches_are_found(t: Seq<char>, surface: Seq<char>, vi: int, m: int)
    requires
        0 <= vi < scan_variants(surface).len(),
        0 <= m < match_starts(t, scan_variants(surface)[vi], 0).len(),
        at_word_boundary(
            t,
            match_starts(t, scan_variants(surface)[vi], 0)[m],
            match_starts(t, scan_variants(surface)[vi], 0)[m] + scan_variants(surface)[vi].len(),
        ),
    ensures
        exists|j: int|
            0 <= j < surface_occurrences(t, surface).len() && (#[trigger] surface_occurrences(t, surface)[j]).0
                == match_starts(t, scan_variants(surface)[vi], 0)[m] && surface_occurrences(t, surface)[j].1
                == match_starts(t, scan_variants(surface)[vi], 0)[m] + scan_variants(surface)[vi].len(),
{
    let vs = scan_variants(surface);
    let cands = variant_candidates(t, vs);
    lemma_variant_candidates_has(t, vs, vi, m);
    lemma_occurrence_scan_complete(t, cands);
    let k = choose|k: int|
        0 <= k < cands.len() && #[trigger] cands[k] == (
            match_starts(t, vs[vi], 0)[m],
            match_starts(t, vs[vi], 0)[m] + vs[vi].len(),
            vs[vi],
        );
    assert(at_word_boundary(t, cands[k].0, cands[k].1));
    let out = occurrence_scan(t, cands).0;
    assert(out == surface_occurrences(t, surface));
    let j = choose|j: int| 0 <= j < out.len() && (#[trigger] out[j]).0 == cands[k].0 && out[j].1 == cands[k].1;
    assert(surface_occurrences(t, surface)[j].0 == cands[k].0);
}

} // verus!
