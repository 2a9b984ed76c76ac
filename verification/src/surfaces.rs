//! Character surfaces: how a name or alias read from the text is cleaned,
//! when it is stable enough to keep, and where quoted surfaces stand.
use vstd::prelude::*;
use crate::text::{
    chars_of, char_is_uppercase, char_is_whitespace, collapse_whitespace, collapse_ws,
    contains_char, has_prefix, has_suffix, is_upper, is_ws, string_of, trim, trim_bounds,
    vec_range,
};
use crate::redact::{split_whitespace, views_of, words};

verus! {

// ------------------------------------------------------------------------
// Quotes.
// ------------------------------------------------------------------------
/// The quote marks a surface may be wrapped in.
pub open spec fn is_quote(c: char) -> bool {
    c == '"' || c == '\'' || c == '`' || c == '“' || c == '”' || c == '‘' || c == '’'
}

pub fn is_quote_char(c: char) -> (r: bool)
    ensures
        r == is_quote(c),
{
    c == '"' || c == '\'' || c == '`' || c == '“' || c == '”' || c == '‘' || c == '’'
}

/// `s` without leading quote marks.
pub open spec fn drop_quotes_start(s: Seq<char>) -> Seq<char>
    decreases s.len(),
{
    if s.len() > 0 && is_quote(s[0]) {
        drop_quotes_start(s.drop_first())
    } else {
        s
    }
}

/// `s` without trailing quote marks.
pub open spec fn drop_quotes_end(s: Seq<char>) -> Seq<char>
    decreases s.len(),
{
    if s.len() > 0 && is_quote(s.last()) {
        drop_quotes_end(s.drop_last())
    } else {
        s
    }
}

/// `s.trim_matches(is_quote_char)`.
pub open spec fn trim_quotes(s: Seq<char>) -> Seq<char> {
    drop_quotes_end(drop_quotes_start(s))
}

proof fn lemma_drop_quotes_start_skip(s: Seq<char>, i: int)
    requires
        0 <= i <= s.len(),
        forall|k: int| 0 <= k < i ==> is_quote(#[trigger] s[k]),
    ensures
        drop_quotes_start(s) == drop_quotes_start(s.subrange(i, s.len() as int)),
    decreases i,
{
    if i > 0 {
        assert(s.drop_first().subrange(i - 1, s.drop_first().len() as int) =~= s.subrange(
            i,
            s.len() as int,
        ));
        lemma_drop_quotes_start_skip(s.drop_first(), i - 1);
    } else {
        assert(s.subrange(0, s.len() as int) =~= s);
    }
}

proof fn lemma_drop_quotes_end_cut(s: Seq<char>, j: int)
    requires
        0 <= j <= s.len(),
        forall|k: int| j <= k < s.len() ==> is_quote(#[trigger] s[k]),
    ensures
        drop_quotes_end(s) == drop_quotes_end(s.subrange(0, j)),
    decreases s.len() - j,
{
    if j < s.len() {
        assert(s.drop_last().subrange(0, j) =~= s.subrange(0, j));
        lemma_drop_quotes_end_cut(s.drop_last(), j);
    } else {
        assert(s.subrange(0, j) =~= s);
    }
}

/// The chars of `cs` without leading and trailing quote marks.
pub fn trim_quote_chars(cs: &Vec<char>) -> (r: Vec<char>)
    ensures
        r@ == trim_quotes(cs@),
{
    let mut a: usize = 0;
    while a < cs.len() && is_quote_char(cs[a])
        invariant
            0 <= a <= cs@.len(),
            forall|k: int| 0 <= k < a ==> is_quote(#[trigger] cs@[k]),
        decreases cs@.len() - a,
    {
        a += 1;
    }
    let mut b = cs.len();
    while b > a && is_quote_char(cs[b - 1])
        invariant
            a <= b <= cs@.len(),
            forall|k: int| b <= k < cs@.len() ==> is_quote(#[trigger] cs@[k]),
        decreases b,
    {
        b -= 1;
    }
    proof {
        let s = cs@;
        lemma_drop_quotes_start_skip(s, a as int);
        let t = s.subrange(a as int, s.len() as int);
        if a < s.len() {
            assert(!is_quote(t[0]));
        }
        assert(drop_quotes_start(s) == t);
        assert forall|k: int| (b - a) <= k < t.len() implies is_quote(#[trigger] t[k]) by {
            assert(t[k] == s[a + k]);
        }
        lemma_drop_quotes_end_cut(t, b - a);
        let u = t.subrange(0, b - a);
        assert(u =~= s.subrange(a as int, b as int));
        if b > a {
            assert(u.last() == s[b - 1]);
        }
    }
    vec_range(cs, a, b)
}

/// The chars of `cs` trimmed of whitespace.
pub fn trim_chars(cs: &Vec<char>) -> (r: Vec<char>)
    ensures
        r@ == trim(cs@),
{
    let (a, b) = trim_bounds(cs);
    vec_range(cs, a, b)
}

// ------------------------------------------------------------------------
// Cleaning a surface.
// ------------------------------------------------------------------------
/// `s` without the suffix `suffix` (and trimmed then), if it ends with it.
pub open spec fn drop_suffix(s: Seq<char>, suffix: Seq<char>) -> Seq<char> {
    if has_suffix(s, suffix) {
        trim(s.subrange(0, s.len() - suffix.len()))
    } else {
        s
    }
}

/// `s.trim_start_matches(prefix)`: every leading copy of `prefix` removed.
pub open spec fn strip_prefix_all(s: Seq<char>, prefix: Seq<char>) -> Seq<char>
    decreases s.len(),
{
    if prefix.len() > 0 && has_prefix(s, prefix) {
        strip_prefix_all(s.subrange(prefix.len() as int, s.len() as int), prefix)
    } else {
        s
    }
}

/// A surface as it is kept: trimmed of spaces and quote marks, whitespace
/// collapsed, a trailing demonstrative (`này`, `đó`, `kia`) dropped, and a
/// leading `vị` dropped from phrases of more than two words.
pub open spec fn clean_surface(value: Seq<char>) -> Seq<char> {
    let s0 = collapse_ws(trim_quotes(trim(value)));
    let s1 = drop_suffix(s0, " này"@);
    let s2 = drop_suffix(s1, " đó"@);
    let s3 = drop_suffix(s2, " kia"@);
    let s4 = if has_prefix(s3, "vị "@) && words(s3).len() > 2 {
        trim(strip_prefix_all(s3, "vị "@))
    } else {
        s3
    };
    trim_quotes(trim(s4))
}

fn drop_suffix_chars(s: Vec<char>, suffix: &str) -> (r: Vec<char>)
    ensures
        r@ == drop_suffix(s@, suffix@),
{
    let suf = chars_of(suffix);
    if crate::text::ends_with_chars(&s, &suf) {
        let cut = vec_range(&s, 0, s.len() - suf.len());
        trim_chars(&cut)
    } else {
        s
    }
}

fn strip_prefix_all_chars(s: Vec<char>, prefix: &str) -> (r: Vec<char>)
    ensures
        r@ == strip_prefix_all(s@, prefix@),
{
    let p = chars_of(prefix);
    let mut cur = s;
    while p.len() > 0 && crate::text::starts_with_chars(&cur, &p)
        invariant
            p@ == prefix@,
            strip_prefix_all(cur@, prefix@) == strip_prefix_all(s@, prefix@),
        decreases cur@.len(),
    {
        cur = vec_range(&cur, p.len(), cur.len());
    }
    cur
}

fn word_count(cs: &Vec<char>) -> (r: usize)
    ensures
        r == words(cs@).len(),
{
    split_whitespace(cs).len()
}

/// Cleans a surface read from the text.
pub fn clean_surface_chars(value: &Vec<char>) -> (r: Vec<char>)
    ensures
        r@ == clean_surface(value@),
{
    let t = trim_chars(value);
    let q = trim_quote_chars(&t);
    let s0 = collapse_whitespace(&q);
    let s1 = drop_suffix_chars(s0, " này");
    let s2 = drop_suffix_chars(s1, " đó");
    let s3 = drop_suffix_chars(s2, " kia");
    let vi = chars_of("vị ");
    let s4 = if crate::text::starts_with_chars(&s3, &vi) && word_count(&s3) > 2 {
        let stripped = strip_prefix_all_chars(s3, "vị ");
        trim_chars(&stripped)
    } else {
        s3
    };
    let t4 = trim_chars(&s4);
    trim_quote_chars(&t4)
}

/// The cleaned surface as a string.
pub fn clean_character_surface(value: &str) -> (r: String)
    ensures
        r@ == clean_surface(value@),
{
    let cs = chars_of(value);
    let cleaned = clean_surface_chars(&cs);
    string_of(&cleaned)
}

// ------------------------------------------------------------------------
// Stable surfaces.
// ------------------------------------------------------------------------
/// Whether `s` holds one of the chars of `set`.
pub open spec fn has_any(s: Seq<char>, set: Seq<char>) -> bool {
    exists|i: int| 0 <= i < s.len() && #[trigger] set.contains(s[i])
}

fn has_any_chars(s: &Vec<char>, set: &str) -> (r: bool)
    ensures
        r == has_any(s@, set@),
{
    let set_chars = chars_of(set);
    let mut i: usize = 0;
    while i < s.len()
        invariant
            set_chars@ == set@,
            0 <= i <= s@.len(),
            forall|k: int| 0 <= k < i ==> !#[trigger] set@.contains(s@[k]),
        decreases s@.len() - i,
    {
        if contains_char(&set_chars, s[i]) {
            assert(set@.contains(s@[i as int]));
            return true;
        }
        i += 1;
    }
    false
}

/// Whether a surface is stable enough to be an alias: two to 64 chars, at
/// most seven words, no line break, no markup or list punctuation.
pub open spec fn is_stable_surface(raw_text: Seq<char>, clean_text: Seq<char>) -> bool {
    let raw = collapse_ws(raw_text);
    let clean = collapse_ws(clean_text);
    &&& clean.len() >= 2
    &&& clean.len() <= 64
    &&& !has_any(raw, "\n\r"@)
    &&& !has_any(raw, ":;[]{}"@)
    &&& words(clean).len() <= 7
    &&& !has_any(clean, "()<>/\\"@)
}

pub fn is_stable_character_alias_surface(raw_text: &str, clean_text: &str) -> (r: bool)
    ensures
        r == is_stable_surface(raw_text@, clean_text@),
{
    let raw = collapse_whitespace(&chars_of(raw_text));
    let clean = collapse_whitespace(&chars_of(clean_text));
    if clean.len() < 2 || clean.len() > 64 || has_any_chars(&raw, "\n\r") {
        return false;
    }
    if has_any_chars(&raw, ":;[]{}") {
        return false;
    }
    if word_count(&clean) > 7 {
        return false;
    }
    !has_any_chars(&clean, "()<>/\\")
}

/// Whether some word of `s` starts with an uppercase letter.
pub open spec fn has_uppercase_word(s: Seq<char>) -> bool {
    exists|i: int| 0 <= i < words(s).len() && is_upper(#[trigger] words(s)[i][0])
}

/// The number of words of `s` that start with an uppercase letter.
pub open spec fn uppercase_word_count(ws: Seq<Seq<char>>) -> nat
    decreases ws.len(),
{
    if ws.len() == 0 {
        0
    } else {
        uppercase_word_count(ws.drop_last()) + if is_upper(ws.last()[0]) {
            1nat
        } else {
            0nat
        }
    }
}

proof fn lemma_words_nonempty(s: Seq<char>)
    ensures
        forall|i: int| 0 <= i < words(s).len() ==> #[trigger] words(s)[i].len() > 0,
    decreases s.len(),
{
    if s.len() > 0 {
        lemma_words_nonempty(s.drop_last());
        let prev = words(s.drop_last());
        let c = s.last();
        assert forall|i: int| 0 <= i < words(s).len() implies #[trigger] words(s)[i].len() > 0 by {
            if is_ws(c) {
            } else if s.len() >= 2 && !is_ws(s[s.len() - 2]) && prev.len() > 0 {
                if i == prev.len() - 1 {
                    assert(words(s)[i] == prev.last().push(c));
                } else {
                    assert(words(s)[i] == prev[i]);
                }
            } else {
                if i < prev.len() {
                    assert(words(s)[i] == prev[i]);
                } else {
                    assert(words(s)[i] == seq![c]);
                }
            }
        }
    }
}

fn uppercase_words(s: &Vec<char>) -> (r: (usize, usize))
    ensures
        r.0 == words(s@).len(),
        r.1 == uppercase_word_count(words(s@)),
        r.1 > 0 <==> has_uppercase_word(s@),
{
    let ws = split_whitespace(s);
    let ghost wv = views_of(ws@);
    proof {
        lemma_words_nonempty(s@);
    }
    let mut count: usize = 0;
    let mut i: usize = 0;
    while i < ws.len()
        invariant
            wv == views_of(ws@),
            wv == words(s@),
            forall|k: int| 0 <= k < wv.len() ==> #[trigger] wv[k].len() > 0,
            0 <= i <= ws@.len(),
            count == uppercase_word_count(wv.take(i as int)),
            count <= i,
            count > 0 <==> exists|k: int| 0 <= k < i && is_upper(#[trigger] wv[k][0]),
        decreases ws@.len() - i,
    {
        proof {
            assert(wv.take(i + 1).drop_last() =~= wv.take(i as int));
            assert(wv[i as int] == ws@[i as int]@);
            assert(ws@[i as int]@.len() > 0);
        }
        if char_is_uppercase(ws[i][0]) {
            count += 1;
        }
        i += 1;
    }
    proof {
        assert(wv.take(wv.len() as int) =~= wv);
    }
    (ws.len(), count)
}

/// Whether some word of a surface starts with an uppercase letter.
pub fn character_surface_has_uppercase_token(value: &str) -> (r: bool)
    ensures
        r == has_uppercase_word(value@),
{
    let (_, upper) = uppercase_words(&chars_of(value));
    upper > 0
}

/// A surface is ambiguous when no word is capitalised, or when it has at most
/// two words and fewer than two of them are capitalised.
pub open spec fn is_ambiguous_surface(s: Seq<char>) -> bool {
    let count = uppercase_word_count(words(s));
    count == 0 || (words(s).len() <= 2 && count < 2)
}

pub fn is_ambiguous_character_surface(surface: &str) -> (r: bool)
    ensures
        r == is_ambiguous_surface(surface@),
{
    let (total, upper) = uppercase_words(&chars_of(surface));
    upper == 0 || (total <= 2 && upper < 2)
}

// ------------------------------------------------------------------------
// Quoted surfaces.
// ------------------------------------------------------------------------
/// A stable surface found between two quote marks.
#[derive(Debug, Clone)]
pub struct QuotedAliasSpan {
    /// Char offset of the opening quote mark.
    pub start_char: i64,
    /// Char offset just after the closing quote mark.
    pub end_char: i64,
    /// The text between the quote marks.
    pub text: String,
}

/// The first quote mark at or after `j`, or the end of `cs`.
pub open spec fn next_quote(cs: Seq<char>, j: int) -> int
    decreases cs.len() - j,
{
    if j >= cs.len() {
        cs.len() as int
    } else if is_quote(cs[j]) {
        j
    } else {
        next_quote(cs, j + 1)
    }
}

proof fn lemma_next_quote(cs: Seq<char>, j: int)
    requires
        0 <= j,
    ensures
        j <= next_quote(cs, j) || (j > cs.len() && next_quote(cs, j) == cs.len()),
        next_quote(cs, j) <= cs.len() || j > cs.len(),
        next_quote(cs, j) < cs.len() ==> is_quote(cs[next_quote(cs, j)]),
        forall|k: int| j <= k < next_quote(cs, j) ==> !is_quote(#[trigger] cs[k]),
    decreases cs.len() - j,
{
    if j < cs.len() && !is_quote(cs[j]) {
        lemma_next_quote(cs, j + 1);
    }
}

/// The stable quoted surfaces from offset `i` on: each quote mark opens a
/// span up to the next one; the span is kept when its text is stable, and
/// scanning goes on after its closing mark. An unclosed quote ends the scan.
pub open spec fn quoted_spans_from(cs: Seq<char>, i: int) -> Seq<(int, int, Seq<char>)>
    decreases cs.len() - i,
{
    if i < 0 || i >= cs.len() {
        seq![]
    } else if !is_quote(cs[i]) {
        quoted_spans_from(cs, i + 1)
    } else {
        let e = next_quote(cs, i + 1);
        if e >= cs.len() || e < i + 1 {
            seq![]
        } else {
            let q = cs.subrange(i + 1, e);
            let rest = quoted_spans_from(cs, e + 1);
            if is_stable_surface(q, clean_surface(q)) {
                seq![(i, e + 1, q)] + rest
            } else {
                rest
            }
        }
    }
}

pub open spec fn span_views(spans: Seq<QuotedAliasSpan>) -> Seq<(int, int, Seq<char>)> {
    spans.map_values(|s: QuotedAliasSpan| (s.start_char as int, s.end_char as int, s.text@))
}

pub open spec fn range_views(ranges: Seq<(usize, usize, String)>) -> Seq<(int, int, Seq<char>)> {
    ranges.map_values(|r: (usize, usize, String)| (r.0 as int, r.1 as int, r.2@))
}

/// The stable quoted surfaces of a text, with their char offsets.
pub fn quoted_ranges(chars: &Vec<char>) -> (r: Vec<(usize, usize, String)>)
    ensures
        range_views(r@) == quoted_spans_from(chars@, 0),
{
    let mut spans: Vec<(usize, usize, String)> = Vec::new();
    let mut index: usize = 0;
    while index < chars.len()
        invariant
            0 <= index <= chars@.len(),
            range_views(spans@) + quoted_spans_from(chars@, index as int) == quoted_spans_from(
                chars@,
                0,
            ),
        decreases chars@.len() - index,
    {
        if !is_quote_char(chars[index]) {
            index += 1;
            continue;
        }
        let quote_start = index;
        let mut quote_end = quote_start + 1;
        while quote_end < chars.len() && !is_quote_char(chars[quote_end])
            invariant
                quote_start < quote_end <= chars@.len(),
                next_quote(chars@, quote_start + 1) == next_quote(chars@, quote_end as int),
            decreases chars@.len() - quote_end,
        {
            quote_end += 1;
        }
        if quote_end >= chars.len() {
            proof {
                assert(quoted_spans_from(chars@, index as int) =~= seq![]);
                assert(range_views(spans@) + seq![] =~= range_views(spans@));
            }
            index = chars.len();
            proof {
                assert(quoted_spans_from(chars@, index as int) =~= seq![]);
            }
        } else {
            let quoted_chars = vec_range(chars, quote_start + 1, quote_end);
            let cleaned = clean_surface_chars(&quoted_chars);
            let quoted = string_of(&quoted_chars);
            let cleaned_text = string_of(&cleaned);
            let ghost before = range_views(spans@);
            if is_stable_character_alias_surface(quoted.as_str(), cleaned_text.as_str()) {
                spans.push((quote_start, quote_end + 1, quoted));
                proof {
                    assert(range_views(spans@) =~= before + seq![
                        (quote_start as int, quote_end + 1, quoted_chars@),
                    ]);
                }
            }
            index = quote_end + 1;
        }
    }
    proof {
        assert(quoted_spans_from(chars@, index as int) =~= seq![]);
        assert(range_views(spans@) + seq![] =~= range_views(spans@));
    }
    spans
}

proof fn lemma_quoted_spans_bounds(cs: Seq<char>, i: int)
    requires
        0 <= i,
    ensures
        forall|k: int|
            0 <= k < quoted_spans_from(cs, i).len() ==> {
                let x = #[trigger] quoted_spans_from(cs, i)[k];
                i <= x.0 < x.1 <= cs.len()
            },
    decreases cs.len() - i,
{
    if i < cs.len() {
        if !is_quote(cs[i]) {
            lemma_quoted_spans_bounds(cs, i + 1);
            assert(quoted_spans_from(cs, i) == quoted_spans_from(cs, i + 1));
            assert forall|k: int| 0 <= k < quoted_spans_from(cs, i).len() implies {
                let x = #[trigger] quoted_spans_from(cs, i)[k];
                i <= x.0 < x.1 <= cs.len()
            } by {
                assert(quoted_spans_from(cs, i)[k] == quoted_spans_from(cs, i + 1)[k]);
            }
        } else {
            lemma_next_quote(cs, i + 1);
            let e = next_quote(cs, i + 1);
            if e < cs.len() && e >= i + 1 {
                lemma_quoted_spans_bounds(cs, e + 1);
                let q = cs.subrange(i + 1, e);
                let rest = quoted_spans_from(cs, e + 1);
                if is_stable_surface(q, clean_surface(q)) {
                    assert forall|k: int| 0 <= k < quoted_spans_from(cs, i).len() implies {
                        let x = #[trigger] quoted_spans_from(cs, i)[k];
                        i <= x.0 < x.1 <= cs.len()
                    } by {
                        if k > 0 {
                            assert(quoted_spans_from(cs, i)[k] == rest[k - 1]);
                        }
                    }
                } else {
                    assert forall|k: int| 0 <= k < quoted_spans_from(cs, i).len() implies {
                        let x = #[trigger] quoted_spans_from(cs, i)[k];
                        i <= x.0 < x.1 <= cs.len()
                    } by {
                        assert(quoted_spans_from(cs, i)[k] == rest[k]);
                    }
                }
            }
        }
    }
}

/// The stable quoted surfaces of a text, with their char offsets.
pub fn quoted_alias_spans(text: &str) -> (r: Vec<QuotedAliasSpan>)
    requires
        text@.len() < i64::MAX,
    ensures
        span_views(r@) == quoted_spans_from(text@, 0),
{
    let chars = chars_of(text);
    let ranges = quoted_ranges(&chars);
    let ghost all = range_views(ranges@);
    proof {
        lemma_quoted_spans_bounds(chars@, 0);
    }
    let mut out: Vec<QuotedAliasSpan> = Vec::new();
    let mut i: usize = 0;
    while i < ranges.len()
        invariant
            range_views(ranges@) == all,
            all == quoted_spans_from(text@, 0),
            0 <= i <= ranges@.len(),
            text@.len() < i64::MAX,
            forall|k: int|
                0 <= k < all.len() ==> {
                    let x = #[trigger] all[k];
                    0 <= x.0 < x.1 <= text@.len()
                },
            span_views(out@) == all.take(i as int),
        decreases ranges@.len() - i,
    {
        let entry = &ranges[i];
        proof {
            assert(all[i as int] == (entry.0 as int, entry.1 as int, entry.2@));
        }
        let span = QuotedAliasSpan {
            start_char: entry.0 as i64,
            end_char: entry.1 as i64,
            text: entry.2.clone(),
        };
        let ghost before = span_views(out@);
        out.push(span);
        proof {
            assert(span_views(out@) =~= before.push(all[i as int]));
            assert(all.take(i + 1) =~= all.take(i as int).push(all[i as int]));
        }
        i += 1;
    }
    proof {
        assert(all.take(all.len() as int) =~= all);
    }
    out
}

} // verus!
