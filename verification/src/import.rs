//! Novel import: chapter splitting, source segments, previews and a basic
//! source-language guess.
use vstd::prelude::*;
use crate::domain::{ChapterPreview, ImportPreview, NovelImportInput};
use crate::extraction::DraftExtractionPrompt;
use crate::lines::{find_line_end, lemma_line_end_bounds, line_end};
use crate::text::{
    ascii_lower, ascii_lower_seq, lemma_blank_trims_empty,
    char_is_ascii_alpha, chars_eq, chars_of, str_eq, collapse_whitespace, collapse_ws, is_ascii_alpha,
    trim_str, push_str, trimmed_nonempty, optional_trimmed, contains_char, has_prefix, is_blank, is_ws, opt_view, owned, starts_with_chars,
    str_lowercase, str_to_lowercase, string_of, string_of_range, trim, trim_bounds, trim_end,
    trim_start, vec_range,
};

verus! {

#[derive(Debug, Clone, PartialEq, Eq)]
pub struct ChapterDraft {
    pub chapter_num: i64,
    pub title: String,
    pub start_char: usize,
    pub end_char: usize,
    pub content: String,
}

#[derive(Debug, Clone, PartialEq, Eq)]
pub struct SourceSegmentDraft {
    pub segment_index: i64,
    pub start_char: usize,
    pub end_char: usize,
    pub text: String,
}

// ------------------------------------------------------------------------
// Source segments: runs of non-blank lines.
// ------------------------------------------------------------------------
/// Closes the open segment (if any) at `end`, keeping it only when it holds text.
pub open spec fn close_segment(s: Seq<char>, acc: Seq<(int, int)>, open: Option<int>, end: int) -> Seq<
    (int, int),
> {
    match open {
        Some(start) => if !is_blank(s.subrange(start, end)) {
            acc.push((start, end))
        } else {
            acc
        },
        None => acc,
    }
}

/// Walks the lines from `cursor`: a blank line closes the open segment, a
/// non-blank line opens one if none is open; the end of the text closes it.
pub open spec fn segment_scan(s: Seq<char>, cursor: int, open: Option<int>, acc: Seq<(int, int)>) -> Seq<
    (int, int),
>
    decreases s.len() - cursor,
{
    if cursor < 0 || cursor >= s.len() {
        close_segment(s, acc, open, s.len() as int)
    } else {
        proof {
            lemma_line_end_bounds(s, cursor);
        }
        let e = line_end(s, cursor);
        if is_blank(s.subrange(cursor, e)) {
            segment_scan(s, e, None, close_segment(s, acc, open, cursor))
        } else {
            segment_scan(
                s,
                e,
                match open {
                    Some(o) => Some(o),
                    None => Some(cursor),
                },
                acc,
            )
        }
    }
}

/// The `[start, end)` char ranges of the source segments of a chapter: maximal
/// runs of non-blank lines, or the whole text when that finds none but the text
/// is not blank.
pub open spec fn source_segment_ranges(s: Seq<char>) -> Seq<(int, int)> {
    let scanned = segment_scan(s, 0, None, Seq::empty());
    if scanned.len() == 0 && !is_blank(s) {
        seq![(0int, s.len() as int)]
    } else {
        scanned
    }
}

pub open spec fn segment_ranges_of(v: Seq<SourceSegmentDraft>) -> Seq<(int, int)> {
    v.map_values(|d: SourceSegmentDraft| (d.start_char as int, d.end_char as int))
}

/// Each segment is numbered from 1 and holds exactly the text of its range.
pub open spec fn segments_well_formed(v: Seq<SourceSegmentDraft>, s: Seq<char>) -> bool {
    forall|k: int|
        #![trigger v[k]]
        0 <= k < v.len() ==> {
            &&& v[k].segment_index == k + 1
            &&& v[k].start_char <= v[k].end_char <= s.len()
            &&& v[k].text@ == s.subrange(v[k].start_char as int, v[k].end_char as int)
        }
}

fn push_segment(
    segments: &mut Vec<SourceSegmentDraft>,
    chapter_content: &Vec<char>,
    start_char: usize,
    end_char: usize,
)
    requires
        start_char <= end_char <= chapter_content@.len(),
        segments_well_formed(old(segments)@, chapter_content@),
        old(segments)@.len() < i64::MAX,
    ensures
        segments_well_formed(final(segments)@, chapter_content@),
        final(segments)@.len() <= old(segments)@.len() + 1,
        segment_ranges_of(final(segments)@) == close_segment(
            chapter_content@,
            segment_ranges_of(old(segments)@),
            Some(start_char as int),
            end_char as int,
        ),
{
    let (a, b) = trim_bounds_range(chapter_content, start_char, end_char);
    if a == b {
        return;
    }
    let text = string_of_range(chapter_content, start_char, end_char);
    let index = segments.len() as i64 + 1;
    segments.push(SourceSegmentDraft { segment_index: index, start_char, end_char, text });
    proof {
        assert(segment_ranges_of(segments@) =~= segment_ranges_of(old(segments)@).push(
            (start_char as int, end_char as int),
        ));
    }
}

/// Whether `cs[from..to]` is blank, reported as equal bounds.
fn trim_bounds_range(cs: &Vec<char>, from: usize, to: usize) -> (r: (usize, usize))
    requires
        from <= to <= cs@.len(),
    ensures
        is_blank(cs@.subrange(from as int, to as int)) <==> r.0 == r.1,
{
    let mut i = from;
    while i < to
        invariant
            from <= i <= to <= cs@.len(),
            forall|k: int| from <= k < i ==> is_ws(#[trigger] cs@[k]),
        decreases to - i,
    {
        if !crate::text::char_is_whitespace(cs[i]) {
            proof {
                let sub = cs@.subrange(from as int, to as int);
                assert(!is_ws(sub[i - from]));
            }
            return (i, to);
        }
        i += 1;
    }
    proof {
        let sub = cs@.subrange(from as int, to as int);
        assert forall|k: int| 0 <= k < sub.len() implies is_ws(#[trigger] sub[k]) by {
            assert(sub[k] == cs@[from + k]);
        }
    }
    (to, to)
}

/// Splits chapter text into segments separated by blank lines.
pub fn split_source_segments(chapter_content: &str) -> (r: Vec<SourceSegmentDraft>)
    requires
        chapter_content@.len() < i64::MAX,
    ensures
        segment_ranges_of(r@) == source_segment_ranges(chapter_content@),
        segments_well_formed(r@, chapter_content@),
{
    let cs = crate::text::chars_of(chapter_content);
    let ghost s = cs@;
    let mut segments: Vec<SourceSegmentDraft> = Vec::new();
    let mut segment_start: Option<usize> = None;
    let mut cursor: usize = 0;
    proof {
        assert(segment_ranges_of(segments@) =~= Seq::<(int, int)>::empty());
    }
    while cursor < cs.len()
        invariant
            s == cs@,
            s.len() < i64::MAX,
            cursor <= s.len(),
            segments_well_formed(segments@, s),
            segments@.len() <= cursor,
            match segment_start {
                Some(st) => st < cursor && segments@.len() < cursor,
                None => true,
            },
            segment_scan(s, 0, None, Seq::empty()) == segment_scan(
                s,
                cursor as int,
                match segment_start {
                    Some(st) => Some(st as int),
                    None => None,
                },
                segment_ranges_of(segments@),
            ),
        decreases s.len() - cursor,
    {
        let e = find_line_end(&cs, cursor);
        let (a, b) = trim_bounds_range(&cs, cursor, e);
        if a == b {
            match segment_start {
                Some(st) => {
                    push_segment(&mut segments, &cs, st, cursor);
                },
                None => {},
            }
            segment_start = None;
        } else if segment_start.is_none() {
            segment_start = Some(cursor);
        }
        cursor = e;
    }
    match segment_start {
        Some(st) => {
            push_segment(&mut segments, &cs, st, cs.len());
        },
        None => {},
    }
    if segments.len() == 0 {
        let (a, b) = trim_bounds(&cs);
        if a != b {
            push_segment(&mut segments, &cs, 0, cs.len());
            proof {
                assert(s.subrange(0, s.len() as int) =~= s);
            }
        }
    }
    segments
}

// ------------------------------------------------------------------------
// Chapter headings.
// ------------------------------------------------------------------------
/// `t` without its leading `#` marks.
pub open spec fn strip_hashes(t: Seq<char>) -> Seq<char>
    decreases t.len(),
{
    if t.len() > 0 && t[0] == '#' {
        strip_hashes(t.drop_first())
    } else {
        t
    }
}

/// The title of a Markdown heading line (`#`s, then text).
pub open spec fn markdown_title(t: Seq<char>) -> Option<Seq<char>> {
    if t.len() > 0 && t[0] == '#' && trim(strip_hashes(t)).len() > 0 {
        Some(trim(strip_hashes(t)))
    } else {
        None
    }
}

/// The words (in lowercase) that mark a chapter heading, and the Chinese
/// `第…章` form.
pub open spec fn is_known_heading(candidate: Seq<char>, line_chars: int) -> bool {
    let lower = str_lowercase(candidate);
    ||| lower == "prologue"@
    ||| lower == "epilogue"@
    ||| has_prefix(lower, "chapter "@)
    ||| has_prefix(lower, "chapter\t"@)
    ||| has_prefix(lower, "chapter:"@)
    ||| has_prefix(lower, "chap. "@)
    ||| has_prefix(lower, "chương "@)
    ||| has_prefix(lower, "chương\t"@)
    ||| has_prefix(lower, "chương:"@)
    ||| has_prefix(lower, "chuong "@)
    ||| has_prefix(lower, "chuong:"@)
    ||| (candidate.len() > 0 && candidate[0] == '第' && candidate.contains('章') && line_chars <= 40)
}

/// The chapter title a trimmed line announces, if it is a heading: lines of at
/// most 96 chars that are Markdown headings or start with a known heading word.
pub open spec fn heading_title(t: Seq<char>) -> Option<Seq<char>> {
    if t.len() == 0 || t.len() > 96 {
        None
    } else {
        let candidate = match markdown_title(t) {
            Some(x) => x,
            None => t,
        };
        if markdown_title(t) is Some || is_known_heading(candidate, t.len() as int) {
            Some(candidate)
        } else {
            None
        }
    }
}

proof fn lemma_strip_hashes_skip(t: Seq<char>, i: int)
    requires
        0 <= i <= t.len(),
        forall|k: int| 0 <= k < i ==> t[k] == '#',
        i == t.len() || t[i] != '#',
    ensures
        strip_hashes(t) == t.subrange(i, t.len() as int),
    decreases i,
{
    if i > 0 {
        assert(t.drop_first().subrange(i - 1, t.drop_first().len() as int) =~= t.subrange(
            i,
            t.len() as int,
        ));
        lemma_strip_hashes_skip(t.drop_first(), i - 1);
    } else {
        assert(t.subrange(0, t.len() as int) =~= t);
    }
}

fn lower_has_prefix(lower: &Vec<char>, p: &str) -> (r: bool)
    ensures
        r == has_prefix(lower@, p@),
{
    let pc = chars_of(p);
    starts_with_chars(lower, &pc)
}

fn lower_is(lower: &Vec<char>, p: &str) -> (r: bool)
    ensures
        r == (lower@ == p@),
{
    let pc = chars_of(p);
    chars_eq(lower, &pc)
}

/// The chapter title announced by a trimmed line, if it is a heading.
fn chapter_heading_title(trimmed: &str) -> (r: Option<String>)
    ensures
        opt_view(r) == heading_title(trimmed@),
        0 < trimmed@.len() <= 96 && (forall|i: int| 0 <= i < trimmed@.len() ==> (#[trigger] trimmed@[i] as u32) < 128)
            && (ascii_lower_seq(trimmed@) == "prologue"@ || ascii_lower_seq(trimmed@) == "epilogue"@)
            ==> opt_view(r) == Some(trimmed@),
{
    let t = chars_of(trimmed);
    let char_count = t.len();
    if char_count == 0 || char_count > 96 {
        return None;
    }
    let markdown: Option<Vec<char>> = if t[0] == '#' {
        let mut i: usize = 0;
        while i < t.len() && t[i] == '#'
            invariant
                0 <= i <= t@.len(),
                forall|k: int| 0 <= k < i ==> t@[k] == '#',
            decreases t@.len() - i,
        {
            i += 1;
        }
        let rest = vec_range(&t, i, t.len());
        proof {
            lemma_strip_hashes_skip(t@, i as int);
        }
        let (a, b) = trim_bounds(&rest);
        if a < b {
            Some(vec_range(&rest, a, b))
        } else {
            None
        }
    } else {
        None
    };
    let is_md = markdown.is_some();
    let candidate: Vec<char> = match markdown {
        Some(x) => x,
        None => t,
    };
    let candidate_str = string_of(&candidate);
    let lower_string = str_to_lowercase(candidate_str.as_str());
    let lower = chars_of(lower_string.as_str());
    let chinese = candidate.len() > 0 && candidate[0] == '第' && contains_char(&candidate, '章')
        && char_count <= 40;
    let known = lower_is(&lower, "prologue") || lower_is(&lower, "epilogue") || lower_has_prefix(
        &lower,
        "chapter ",
    ) || lower_has_prefix(&lower, "chapter\t") || lower_has_prefix(&lower, "chapter:")
        || lower_has_prefix(&lower, "chap. ") || lower_has_prefix(&lower, "chương ")
        || lower_has_prefix(&lower, "chương\t") || lower_has_prefix(&lower, "chương:")
        || lower_has_prefix(&lower, "chuong ") || lower_has_prefix(&lower, "chuong:") || chinese;
    proof {
        reveal_strlit("prologue");
        reveal_strlit("epilogue");
        if 0 < trimmed@.len() <= 96 && (forall|i: int| 0 <= i < trimmed@.len() ==> (#[trigger] trimmed@[i] as u32) < 128)
            && (ascii_lower_seq(trimmed@) == "prologue"@ || ascii_lower_seq(trimmed@) == "epilogue"@) {
            assert(ascii_lower_seq(trimmed@)[0] == ascii_lower(trimmed@[0]));
            assert(t@[0] != '#');
            assert(!is_md);
            assert(candidate@ == trimmed@);
            assert(lower@ == ascii_lower_seq(candidate@));
        }
    }
    if is_md || known {
        Some(candidate_str)
    } else {
        None
    }
}

/// Walks the lines from `cursor`, recording `(line start, title)` for each
/// heading line.
pub open spec fn heading_scan(s: Seq<char>, cursor: int, acc: Seq<(int, Seq<char>)>) -> Seq<
    (int, Seq<char>),
>
    decreases s.len() - cursor,
{
    if cursor < 0 || cursor >= s.len() {
        acc
    } else {
        proof {
            lemma_line_end_bounds(s, cursor);
        }
        let e = line_end(s, cursor);
        match heading_title(trim(s.subrange(cursor, e))) {
            Some(title) => heading_scan(s, e, acc.push((cursor, title))),
            None => heading_scan(s, e, acc),
        }
    }
}

/// The headings of the text, with a "Preface" at 0 when non-blank text comes
/// before the first heading.
pub open spec fn headings_with_preface(s: Seq<char>) -> Seq<(int, Seq<char>)> {
    let h = heading_scan(s, 0, Seq::empty());
    if h.len() > 0 && h[0].0 > 0 && !is_blank(s.subrange(0, h[0].0)) {
        seq![(0int, "Preface"@)] + h
    } else {
        h
    }
}

/// Where the chapter of heading `i` ends: at the next heading, or the end of text.
pub open spec fn heading_end(s: Seq<char>, h: Seq<(int, Seq<char>)>, i: int) -> int {
    if i + 1 < h.len() {
        h[i + 1].0
    } else {
        s.len() as int
    }
}

/// `(chapter number, title, start, end)` of the chapters of the first `n`
/// headings; a heading whose chapter text is blank yields no chapter, and the
/// chapter number is the heading's position plus one.
pub open spec fn chapter_list(s: Seq<char>, h: Seq<(int, Seq<char>)>, n: int) -> Seq<
    (int, Seq<char>, int, int),
>
    decreases n,
{
    if n <= 0 {
        Seq::empty()
    } else {
        let prev = chapter_list(s, h, n - 1);
        let i = n - 1;
        let start = h[i].0;
        let end = heading_end(s, h, i);
        if is_blank(s.subrange(start, end)) {
            prev
        } else {
            prev.push((i + 1, h[i].1, start, end))
        }
    }
}

/// The chapters of a source text: none for a blank text, one "Chapter 1" for a
/// text without headings, otherwise one per heading (see `chapter_list`).
pub open spec fn chapter_outline(s: Seq<char>) -> Seq<(int, Seq<char>, int, int)> {
    if is_blank(s) {
        Seq::empty()
    } else if heading_scan(s, 0, Seq::empty()).len() == 0 {
        seq![(1int, "Chapter 1"@, 0int, s.len() as int)]
    } else {
        let h = headings_with_preface(s);
        chapter_list(s, h, h.len() as int)
    }
}

pub open spec fn chapter_outline_of(v: Seq<ChapterDraft>) -> Seq<(int, Seq<char>, int, int)> {
    v.map_values(
        |c: ChapterDraft| (c.chapter_num as int, c.title@, c.start_char as int, c.end_char as int),
    )
}

/// Each chapter holds exactly the text of its range.
pub open spec fn chapters_well_formed(v: Seq<ChapterDraft>, s: Seq<char>) -> bool {
    forall|k: int|
        #![trigger v[k]]
        0 <= k < v.len() ==> {
            &&& v[k].start_char <= v[k].end_char <= s.len()
            &&& v[k].content@ == s.subrange(v[k].start_char as int, v[k].end_char as int)
        }
}

pub open spec fn heading_view(v: Seq<(usize, String)>) -> Seq<(int, Seq<char>)> {
    v.map_values(|p: (usize, String)| (p.0 as int, p.1@))
}

/// Heading positions are strictly increasing and before `bound`.
pub open spec fn positions_increasing(h: Seq<(int, Seq<char>)>, bound: int) -> bool {
    &&& forall|a: int, b: int| 0 <= a < b < h.len() ==> h[a].0 < h[b].0
    &&& forall|a: int| 0 <= a < h.len() ==> 0 <= #[trigger] h[a].0 < bound
}

fn scan_headings(cs: &Vec<char>) -> (r: Vec<(usize, String)>)
    ensures
        heading_view(r@) == heading_scan(cs@, 0, Seq::empty()),
        positions_increasing(heading_view(r@), cs@.len() as int),
        r@.len() <= cs@.len(),
{
    let ghost s = cs@;
    let mut headings: Vec<(usize, String)> = Vec::new();
    let mut cursor: usize = 0;
    proof {
        assert(heading_view(headings@) =~= Seq::<(int, Seq<char>)>::empty());
    }
    while cursor < cs.len()
        invariant
            s == cs@,
            cursor <= s.len(),
            headings@.len() <= cursor,
            positions_increasing(heading_view(headings@), cursor as int),
            heading_scan(s, 0, Seq::empty()) == heading_scan(
                s,
                cursor as int,
                heading_view(headings@),
            ),
        decreases s.len() - cursor,
    {
        let e = find_line_end(cs, cursor);
        let line = vec_range(cs, cursor, e);
        let (a, b) = trim_bounds(&line);
        let trimmed = string_of_range(&line, a, b);
        match chapter_heading_title(trimmed.as_str()) {
            Some(title) => {
                let ghost old_h = heading_view(headings@);
                headings.push((cursor, title));
                proof {
                    assert(heading_view(headings@) =~= old_h.push((cursor as int, title@)));
                }
            },
            None => {},
        }
        cursor = e;
    }
    headings
}

/// Splits a novel into chapters at heading lines.
pub fn split_chapters(source: &str) -> (r: Vec<ChapterDraft>)
    requires
        source@.len() < i64::MAX,
    ensures
        chapter_outline_of(r@) == chapter_outline(source@),
        chapters_well_formed(r@, source@),
{
    let cs = chars_of(source);
    let ghost s = cs@;
    let total_chars = cs.len();
    let (ta, tb) = trim_bounds(&cs);
    if ta == tb {
        let r: Vec<ChapterDraft> = Vec::new();
        proof {
            assert(chapter_outline_of(r@) =~= Seq::<(int, Seq<char>, int, int)>::empty());
        }
        return r;
    }
    let mut headings = scan_headings(&cs);
    if headings.len() == 0 {
        let mut r: Vec<ChapterDraft> = Vec::new();
        r.push(
            ChapterDraft {
                chapter_num: 1,
                title: owned("Chapter 1"),
                start_char: 0,
                end_char: total_chars,
                content: owned(source),
            },
        );
        proof {
            assert(chapter_outline_of(r@) =~= seq![(1int, "Chapter 1"@, 0int, s.len() as int)]);
            assert(s.subrange(0, s.len() as int) =~= s);
        }
        return r;
    }
    let first = headings[0].0;
    proof {
        assert(heading_view(headings@)[0].0 == first);
    }
    if first > 0 {
        let (pa, pb) = trim_bounds_range(&cs, 0, first);
        if pa != pb {
            let ghost old_h = heading_view(headings@);
            headings.insert(0, (0, owned("Preface")));
            proof {
                assert(heading_view(headings@) =~= seq![(0int, "Preface"@)] + old_h);
            }
        }
    }
    let ghost h = heading_view(headings@);
    proof {
        assert(h == headings_with_preface(s));
        assert(positions_increasing(h, s.len() as int));
    }
    let mut chapters: Vec<ChapterDraft> = Vec::new();
    let mut index: usize = 0;
    proof {
        assert(chapter_outline_of(chapters@) =~= chapter_list(s, h, 0));
    }
    while index < headings.len()
        invariant
            s == cs@,
            s.len() < i64::MAX,
            total_chars == s.len(),
            h == heading_view(headings@),
            h.len() <= s.len() + 1,
            positions_increasing(h, s.len() as int),
            0 <= index <= h.len(),
            chapter_outline_of(chapters@) == chapter_list(s, h, index as int),
            chapters_well_formed(chapters@, s),
        decreases h.len() - index,
    {
        let start_char = headings[index].0;
        let end_char = if index + 1 < headings.len() {
            headings[index + 1].0
        } else {
            total_chars
        };
        proof {
            assert(h[index as int].0 == start_char);
            if index + 1 < h.len() {
                assert(h[index + 1].0 == end_char);
            }
            assert(end_char == heading_end(s, h, index as int));
        }
        let (ca, cb) = trim_bounds_range(&cs, start_char, end_char);
        if ca != cb {
            let content = string_of_range(&cs, start_char, end_char);
            let title = headings[index].1.clone();
            let ghost old_c = chapters@;
            chapters.push(
                ChapterDraft {
                    chapter_num: index as i64 + 1,
                    title,
                    start_char,
                    end_char,
                    content,
                },
            );
            proof {
                assert(chapter_outline_of(chapters@) =~= chapter_outline_of(old_c).push(
                    (index + 1, h[index as int].1, start_char as int, end_char as int),
                ));
            }
        }
        index += 1;
    }
    chapters
}

// ------------------------------------------------------------------------
// Previews.
// ------------------------------------------------------------------------
/// The first `max_chars` chars of `s` with its whitespace collapsed.
pub open spec fn preview_of(s: Seq<char>, max_chars: int) -> Seq<char> {
    let n = collapse_ws(s);
    if n.len() <= max_chars {
        n
    } else {
        n.take(max_chars)
    }
}

fn preview_text(source: &Vec<char>, max_chars: usize) -> (r: String)
    ensures
        r@ == preview_of(source@, max_chars as int),
{
    let normalized = collapse_whitespace(source);
    if normalized.len() <= max_chars {
        string_of(&normalized)
    } else {
        string_of_range(&normalized, 0, max_chars)
    }
}

pub open spec fn chapter_preview_matches(
    p: ChapterPreview,
    c: (int, Seq<char>, int, int),
    s: Seq<char>,
) -> bool {
    &&& p.chapter_num == c.0
    &&& p.title@ == c.1
    &&& p.start_char == c.2
    &&& p.end_char == c.3
    &&& p.char_count == c.3 - c.2
    &&& p.preview@ == preview_of(s.subrange(c.2, c.3), 180)
}

/// The preview of an import: trimmed title, char count, and one preview per
/// chapter of `chapter_outline`.
pub fn build_import_preview(input: &NovelImportInput) -> (r: ImportPreview)
    requires
        input.text@.len() < i64::MAX,
    ensures
        r.title@ == trim(input.title@),
        r.total_chars == input.text@.len(),
        r.chapter_count == chapter_outline(input.text@).len(),
        r.chapters@.len() == chapter_outline(input.text@).len(),
        forall|k: int|
            0 <= k < r.chapters@.len() ==> chapter_preview_matches(
                #[trigger] r.chapters@[k],
                chapter_outline(input.text@)[k],
                input.text@,
            ),
{
    let chapters = split_chapters(input.text.as_str());
    let text_chars = chars_of(input.text.as_str());
    let ghost s = input.text@;
    let ghost outline = chapter_outline(s);
    let mut previews: Vec<ChapterPreview> = Vec::new();
    let mut k: usize = 0;
    while k < chapters.len()
        invariant
            s == input.text@,
            outline == chapter_outline(s),
            chapter_outline_of(chapters@) == outline,
            chapters_well_formed(chapters@, s),
            0 <= k <= chapters@.len(),
            previews@.len() == k,
            forall|j: int|
                0 <= j < k ==> chapter_preview_matches(#[trigger] previews@[j], outline[j], s),
        decreases chapters@.len() - k,
    {
        let chapter = &chapters[k];
        let content = chars_of(chapter.content.as_str());
        let preview = preview_text(&content, 180);
        proof {
            assert(outline[k as int] == chapter_outline_of(chapters@)[k as int]);
        }
        previews.push(
            ChapterPreview {
                chapter_num: chapter.chapter_num,
                title: chapter.title.clone(),
                start_char: chapter.start_char,
                end_char: chapter.end_char,
                char_count: chapter.end_char - chapter.start_char,
                preview,
            },
        );
        k += 1;
    }
    ImportPreview {
        title: trim_str(input.title.as_str()),
        total_chars: text_chars.len(),
        chapter_count: chapters.len(),
        chapters: previews,
    }
}

// ------------------------------------------------------------------------
// Source language guess.
// ------------------------------------------------------------------------
pub open spec fn is_han(c: char) -> bool {
    ('\u{3400}' <= c && c <= '\u{4dbf}') || ('\u{4e00}' <= c && c <= '\u{9fff}') || ('\u{f900}' <= c
        && c <= '\u{faff}')
}

pub open spec fn is_kana(c: char) -> bool {
    '\u{3040}' <= c && c <= '\u{30ff}'
}

pub open spec fn is_hangul(c: char) -> bool {
    ('\u{ac00}' <= c && c <= '\u{d7af}') || ('\u{1100}' <= c && c <= '\u{11ff}')
}

/// Vietnamese letters with diacritics (lower and upper case).
pub open spec fn is_vietnamese_marked(c: char) -> bool {
    match c {
        'à' | 'á' | 'ả' | 'ã' | 'ạ' | 'ă' | 'ằ' | 'ắ' | 'ẳ' | 'ẵ' | 'ặ' | 'â' | 'ầ' | 'ấ' | 'ẩ' | 'ẫ' | 'ậ' | 'è' | 'é' | 'ẻ' | 'ẽ' | 'ẹ' | 'ê' | 'ề' | 'ế' | 'ể' | 'ễ' | 'ệ' | 'ì' | 'í' | 'ỉ' | 'ĩ' | 'ị' | 'ò' | 'ó' | 'ỏ' | 'õ' | 'ọ' | 'ô' | 'ồ' | 'ố' | 'ổ' | 'ỗ' | 'ộ' | 'ơ' | 'ờ' | 'ớ' | 'ở' | 'ỡ' | 'ợ' | 'ù' | 'ú' | 'ủ' | 'ũ' | 'ụ' | 'ư' | 'ừ' | 'ứ' | 'ử' | 'ữ' | 'ự' | 'ỳ' | 'ý' | 'ỷ' | 'ỹ' | 'ỵ' | 'đ' | 'À' | 'Á' | 'Ả' | 'Ã' | 'Ạ' | 'Ă' | 'Ằ' | 'Ắ' | 'Ẳ' | 'Ẵ' | 'Ặ' | 'Â' | 'Ầ' | 'Ấ' | 'Ẩ' | 'Ẫ' | 'Ậ' | 'È' | 'É' | 'Ẻ' | 'Ẽ' | 'Ẹ' | 'Ê' | 'Ề' | 'Ế' | 'Ể' | 'Ễ' | 'Ệ' | 'Ì' | 'Í' | 'Ỉ' | 'Ĩ' | 'Ị' | 'Ò' | 'Ó' | 'Ỏ' | 'Õ' | 'Ọ' | 'Ô' | 'Ồ' | 'Ố' | 'Ổ' | 'Ỗ' | 'Ộ' | 'Ơ' | 'Ờ' | 'Ớ' | 'Ở' | 'Ỡ' | 'Ợ' | 'Ù' | 'Ú' | 'Ủ' | 'Ũ' | 'Ụ' | 'Ư' | 'Ừ' | 'Ứ' | 'Ử' | 'Ữ' | 'Ự' | 'Ỳ' | 'Ý' | 'Ỷ' | 'Ỹ' | 'Ỵ' | 'Đ' => true,
        _ => false,
    }
}

fn is_han_char(ch: char) -> (r: bool)
    ensures
        r == is_han(ch),
{
    ('\u{3400}' <= ch && ch <= '\u{4dbf}') || ('\u{4e00}' <= ch && ch <= '\u{9fff}') || (
    '\u{f900}' <= ch && ch <= '\u{faff}')
}

fn is_kana_char(ch: char) -> (r: bool)
    ensures
        r == is_kana(ch),
{
    '\u{3040}' <= ch && ch <= '\u{30ff}'
}

fn is_hangul_char(ch: char) -> (r: bool)
    ensures
        r == is_hangul(ch),
{
    ('\u{ac00}' <= ch && ch <= '\u{d7af}') || ('\u{1100}' <= ch && ch <= '\u{11ff}')
}

fn is_vietnamese_marked_char(ch: char) -> (r: bool)
    ensures
        r == is_vietnamese_marked(ch),
{
    match ch {
        'à' | 'á' | 'ả' | 'ã' | 'ạ' | 'ă' | 'ằ' | 'ắ' | 'ẳ' | 'ẵ' | 'ặ' | 'â' | 'ầ' | 'ấ' | 'ẩ' | 'ẫ' | 'ậ' | 'è' | 'é' | 'ẻ' | 'ẽ' | 'ẹ' | 'ê' | 'ề' | 'ế' | 'ể' | 'ễ' | 'ệ' | 'ì' | 'í' | 'ỉ' | 'ĩ' | 'ị' | 'ò' | 'ó' | 'ỏ' | 'õ' | 'ọ' | 'ô' | 'ồ' | 'ố' | 'ổ' | 'ỗ' | 'ộ' | 'ơ' | 'ờ' | 'ớ' | 'ở' | 'ỡ' | 'ợ' | 'ù' | 'ú' | 'ủ' | 'ũ' | 'ụ' | 'ư' | 'ừ' | 'ứ' | 'ử' | 'ữ' | 'ự' | 'ỳ' | 'ý' | 'ỷ' | 'ỹ' | 'ỵ' | 'đ' | 'À' | 'Á' | 'Ả' | 'Ã' | 'Ạ' | 'Ă' | 'Ằ' | 'Ắ' | 'Ẳ' | 'Ẵ' | 'Ặ' | 'Â' | 'Ầ' | 'Ấ' | 'Ẩ' | 'Ẫ' | 'Ậ' | 'È' | 'É' | 'Ẻ' | 'Ẽ' | 'Ẹ' | 'Ê' | 'Ề' | 'Ế' | 'Ể' | 'Ễ' | 'Ệ' | 'Ì' | 'Í' | 'Ỉ' | 'Ĩ' | 'Ị' | 'Ò' | 'Ó' | 'Ỏ' | 'Õ' | 'Ọ' | 'Ô' | 'Ồ' | 'Ố' | 'Ổ' | 'Ỗ' | 'Ộ' | 'Ơ' | 'Ờ' | 'Ớ' | 'Ở' | 'Ỡ' | 'Ợ' | 'Ù' | 'Ú' | 'Ủ' | 'Ũ' | 'Ụ' | 'Ư' | 'Ừ' | 'Ứ' | 'Ử' | 'Ữ' | 'Ự' | 'Ỳ' | 'Ý' | 'Ỷ' | 'Ỹ' | 'Ỵ' | 'Đ' => true,
        _ => false,
    }
}

/// Script counts `(han, kana, hangul, latin, vietnamese-marked)`; a
/// Vietnamese marked letter also counts as latin.
pub open spec fn script_counts(s: Seq<char>) -> (int, int, int, int, int)
    decreases s.len(),
{
    if s.len() == 0 {
        (0, 0, 0, 0, 0)
    } else {
        let (h, k, g, l, v) = script_counts(s.drop_last());
        let c = s.last();
        if is_han(c) {
            (h + 1, k, g, l, v)
        } else if is_kana(c) {
            (h, k + 1, g, l, v)
        } else if is_hangul(c) {
            (h, k, g + 1, l, v)
        } else if is_ascii_alpha(c) {
            (h, k, g, l + 1, v)
        } else if is_vietnamese_marked(c) {
            (h, k, g, l + 1, v + 1)
        } else {
            (h, k, g, l, v)
        }
    }
}

proof fn lemma_script_counts_bounded(s: Seq<char>)
    ensures
        ({
            let (h, k, g, l, v) = script_counts(s);
            0 <= h <= s.len() && 0 <= k <= s.len() && 0 <= g <= s.len() && 0 <= l <= s.len() && 0
                <= v <= s.len()
        }),
    decreases s.len(),
{
    if s.len() > 0 {
        lemma_script_counts_bounded(s.drop_last());
    }
}

/// The language code guessed from the script counts of the first 12000 chars.
pub open spec fn guessed_language(s: Seq<char>) -> Option<Seq<char>> {
    let sample = if s.len() <= 12000 {
        s
    } else {
        s.take(12000)
    };
    let (han, kana, hangul, latin, vietnamese) = script_counts(sample);
    if kana >= 8 {
        Some("ja"@)
    } else if hangul >= 8 {
        Some("ko"@)
    } else if han >= 16 && han > latin {
        Some("zh"@)
    } else if vietnamese >= 8 {
        Some("vi"@)
    } else if latin >= 32 {
        Some("en"@)
    } else {
        None
    }
}

/// Guesses the source language from the scripts used in the text.
pub fn detect_basic_source_language(source: &str) -> (r: Option<String>)
    ensures
        opt_view(r) == guessed_language(source@),
{
    let cs = chars_of(source);
    let n = if cs.len() <= 12000 {
        cs.len()
    } else {
        12000
    };
    let mut han: usize = 0;
    let mut kana: usize = 0;
    let mut hangul: usize = 0;
    let mut latin: usize = 0;
    let mut vietnamese: usize = 0;
    let mut i: usize = 0;
    while i < n
        invariant
            n <= cs@.len(),
            n <= 12000,
            0 <= i <= n,
            script_counts(cs@.take(i as int)) == (
                han as int,
                kana as int,
                hangul as int,
                latin as int,
                vietnamese as int,
            ),
        decreases n - i,
    {
        proof {
            lemma_script_counts_bounded(cs@.take(i as int));
            assert(cs@.take(i + 1).drop_last() =~= cs@.take(i as int));
        }
        let ch = cs[i];
        if is_han_char(ch) {
            han += 1;
        } else if is_kana_char(ch) {
            kana += 1;
        } else if is_hangul_char(ch) {
            hangul += 1;
        } else if char_is_ascii_alpha(ch) {
            latin += 1;
        } else if is_vietnamese_marked_char(ch) {
            latin += 1;
            vietnamese += 1;
        }
        i += 1;
    }
    proof {
        if cs@.len() <= 12000 {
            assert(cs@.take(n as int) =~= cs@);
        }
    }
    if kana >= 8 {
        Some(owned("ja"))
    } else if hangul >= 8 {
        Some(owned("ko"))
    } else if han >= 16 && han > latin {
        Some(owned("zh"))
    } else if vietnamese >= 8 {
        Some(owned("vi"))
    } else if latin >= 32 {
        Some(owned("en"))
    } else {
        None
    }
}

pub const METADATA_PROMPT_PART_0: &'static str = "Source language guess: ";
pub const METADATA_PROMPT_PART_1: &'static str = "\nExisting title: ";
pub const METADATA_PROMPT_PART_2: &'static str = "\nExisting author: ";
pub const METADATA_PROMPT_PART_3: &'static str = "\nExisting genre: ";
pub const METADATA_PROMPT_PART_4: &'static str = "\nExisting description: ";
pub const METADATA_PROMPT_PART_5: &'static str = "\n\nSource sample:\n<<<SOURCE_TEXT\n";
pub const METADATA_PROMPT_PART_6: &'static str = "\nSOURCE_TEXT\n\nTrích xuất metadata cấp truyện từ sample. Chỉ dùng thông tin có trong sample; không dùng kiến thức ngoài.\nNếu không chắc trường nào, trả null cho trường đó.\nsource_language dùng ISO code ngắn như zh, vi, en, ja, ko nếu nhận diện được.\ngenre là chuỗi ngắn, có thể gồm nhiều thể loại cách nhau bằng dấu phẩy nếu sample thể hiện rõ.\ndescription là mô tả rất ngắn bằng tiếng Việt có dấu về nội dung/bối cảnh nếu suy ra được từ sample, không bịa chi tiết.\n\nChỉ trả JSON array đúng một object:\n[\n  {\n    \"title\": null,\n    \"author\": null,\n    \"source_language\": \"";
pub const METADATA_PROMPT_PART_7: &'static str = "\",\n    \"genre\": null,\n    \"description\": null,\n    \"confidence\": 0.0\n  }\n]";

/// The source language named in the metadata prompt: the given one unless it is
/// empty or "auto", else the guessed one, else "unknown".
pub open spec fn metadata_source_language(input: NovelImportInput) -> Seq<char> {
    match trimmed_nonempty(opt_view(input.source_language)) {
        Some(v) => if v != "auto"@ {
            v
        } else {
            match guessed_language(input.text@) {
                Some(l) => l,
                None => "unknown"@,
            }
        },
        None => match guessed_language(input.text@) {
            Some(l) => l,
            None => "unknown"@,
        },
    }
}

pub open spec fn opt_or_empty(o: Option<Seq<char>>) -> Seq<char> {
    match o {
        Some(v) => v,
        None => Seq::empty(),
    }
}

fn trimmed_or_empty(o: &Option<String>) -> (r: String)
    ensures
        r@ == trim(opt_or_empty(opt_view(*o))),
{
    match o {
        Some(v) => trim_str(v.as_str()),
        None => {
            let r = String::new();
            proof {
                assert(trim_start(Seq::<char>::empty()) =~= Seq::<char>::empty());
                assert(trim_end(Seq::<char>::empty()) =~= Seq::<char>::empty());
            }
            r
        },
    }
}

pub const METADATA_SCHEMA_VERSION: &'static str = "novel_metadata_suggestion.v1";
pub const METADATA_SYSTEM_PROMPT: &'static str = "You extract novel metadata from source text. Return valid JSON only.";

/// The user prompt that asks the model for novel metadata.
pub open spec fn metadata_user_prompt(input: NovelImportInput) -> Seq<char> {
    METADATA_PROMPT_PART_0@
        + metadata_source_language(input)
        + METADATA_PROMPT_PART_1@
        + trim(input.title@)
        + METADATA_PROMPT_PART_2@
        + trim(opt_or_empty(opt_view(input.author)))
        + METADATA_PROMPT_PART_3@
        + trim(opt_or_empty(opt_view(input.genre)))
        + METADATA_PROMPT_PART_4@
        + trim(opt_or_empty(opt_view(input.description)))
        + METADATA_PROMPT_PART_5@
        + preview_of(input.text@, 12000)
        + METADATA_PROMPT_PART_6@
        + metadata_source_language(input)
        + METADATA_PROMPT_PART_7@
}

/// Builds the prompt that asks a model for the title, author, language, genre
/// and description of a novel from a sample of its text.
pub fn build_novel_metadata_suggestion_prompt(input: &NovelImportInput) -> (r: DraftExtractionPrompt)
    ensures
        r.schema_version@ == METADATA_SCHEMA_VERSION@,
        r.system_prompt@ == METADATA_SYSTEM_PROMPT@,
        r.user_prompt@ == metadata_user_prompt(*input),
{
    let given = optional_trimmed(&input.source_language);
    let source_language = match given {
        Some(v) if !str_eq(v.as_str(), "auto") => v,
        _ => match detect_basic_source_language(input.text.as_str()) {
            Some(l) => l,
            None => owned("unknown"),
        },
    };
    let text_chars = chars_of(input.text.as_str());
    let sample = preview_text(&text_chars, 12000);
    let title = trim_str(input.title.as_str());
    let author = trimmed_or_empty(&input.author);
    let genre = trimmed_or_empty(&input.genre);
    let description = trimmed_or_empty(&input.description);
    let mut user_prompt = String::new();
    push_str(&mut user_prompt, METADATA_PROMPT_PART_0);
    push_str(&mut user_prompt, source_language.as_str());
    push_str(&mut user_prompt, METADATA_PROMPT_PART_1);
    push_str(&mut user_prompt, title.as_str());
    push_str(&mut user_prompt, METADATA_PROMPT_PART_2);
    push_str(&mut user_prompt, author.as_str());
    push_str(&mut user_prompt, METADATA_PROMPT_PART_3);
    push_str(&mut user_prompt, genre.as_str());
    push_str(&mut user_prompt, METADATA_PROMPT_PART_4);
    push_str(&mut user_prompt, description.as_str());
    push_str(&mut user_prompt, METADATA_PROMPT_PART_5);
    push_str(&mut user_prompt, sample.as_str());
    push_str(&mut user_prompt, METADATA_PROMPT_PART_6);
    push_str(&mut user_prompt, source_language.as_str());
    push_str(&mut user_prompt, METADATA_PROMPT_PART_7);
    DraftExtractionPrompt {
        schema_version: METADATA_SCHEMA_VERSION,
        system_prompt: owned(METADATA_SYSTEM_PROMPT),
        user_prompt,
    }
}

/// The previews of an import follow the chapters that `split_chapters`
/// gives, one for one: same number, title and range, the range's length as
/// the char count, and as preview the first 180 chars of the chapter's
/// content with its whitespace runs collapsed.
pub proof fn lemma_previews_follow_split_chapters(
    text: Seq<char>,
    chapters: Seq<ChapterDraft>,
    previews: Seq<ChapterPreview>,
)
    requires
        chapter_outline_of(chapters) == chapter_outline(text),
        chapters_well_formed(chapters, text),
        previews.len() == chapter_outline(text).len(),
        forall|k: int|
            0 <= k < previews.len() ==> chapter_preview_matches(
                #[trigger] previews[k],
                chapter_outline(text)[k],
                text,
            ),
    ensures
        previews.len() == chapters.len(),
        forall|k: int|
            0 <= k < previews.len() ==> {
                &&& (#[trigger] previews[k]).chapter_num == chapters[k].chapter_num
                &&& previews[k].title@ == chapters[k].title@
                &&& previews[k].start_char == chapters[k].start_char
                &&& previews[k].end_char == chapters[k].end_char
                &&& previews[k].char_count == chapters[k].end_char - chapters[k].start_char
                &&& previews[k].preview@ == preview_of(chapters[k].content@, 180)
            },
{
    assert(chapter_outline_of(chapters).len() == chapters.len());
    assert forall|k: int| 0 <= k < previews.len() implies {
        &&& (#[trigger] previews[k]).chapter_num == chapters[k].chapter_num
        &&& previews[k].title@ == chapters[k].title@
        &&& previews[k].start_char == chapters[k].start_char
        &&& previews[k].end_char == chapters[k].end_char
        &&& previews[k].char_count == chapters[k].end_char - chapters[k].start_char
        &&& previews[k].preview@ == preview_of(chapters[k].content@, 180)
    } by {
        assert(chapter_outline_of(chapters)[k] == chapter_outline(text)[k]);
        assert(chapter_preview_matches(previews[k], chapter_outline(text)[k], text));
        assert(chapters[k].content@ == text.subrange(chapters[k].start_char as int, chapters[k].end_char as int));
    }
}

// ------------------------------------------------------------------------
// The chapters in order, and no text left out but whitespace.
// ------------------------------------------------------------------------
/// Chapters in order: each range is non-empty and within the text, chapter
/// numbers increase, and each chapter ends where or before the next begins.
pub open spec fn outline_ordered(c: Seq<(int, Seq<char>, int, int)>, n: int) -> bool {
    &&& forall|k: int| 0 <= k < c.len() ==> 0 <= (#[trigger] c[k]).2 < c[k].3 <= n
    &&& forall|k: int, l: int|
        0 <= k < l < c.len() ==> (#[trigger] c[k]).0 < (#[trigger] c[l]).0 && c[k].3 <= c[l].2
}

/// Position `p` lies in one of the chapters.
pub open spec fn in_some_chapter(c: Seq<(int, Seq<char>, int, int)>, p: int) -> bool {
    exists|k: int| 0 <= k < c.len() && (#[trigger] c[k]).2 <= p < c[k].3
}

proof fn lemma_heading_scan_increasing(s: Seq<char>, cursor: int, acc: Seq<(int, Seq<char>)>)
    requires
        0 <= cursor <= s.len(),
        positions_increasing(acc, cursor),
    ensures
        positions_increasing(heading_scan(s, cursor, acc), s.len() as int),
    decreases s.len() - cursor,
{
    if cursor < s.len() {
        lemma_line_end_bounds(s, cursor);
        let e = line_end(s, cursor);
        match heading_title(trim(s.subrange(cursor, e))) {
            Some(title) => {
                let next = acc.push((cursor, title));
                assert(positions_increasing(next, e)) by {
                    assert forall|a: int, b: int| 0 <= a < b < next.len() implies next[a].0 < next[b].0 by {
                        if b == acc.len() {
                            assert(acc[a].0 < cursor);
                        } else {
                            assert(next[a] == acc[a] && next[b] == acc[b]);
                        }
                    }
                    assert forall|a: int| 0 <= a < next.len() implies 0 <= #[trigger] next[a].0 < e by {
                        if a < acc.len() {
                            assert(next[a] == acc[a]);
                        }
                    }
                }
                lemma_heading_scan_increasing(s, e, next);
            },
            None => {
                lemma_heading_scan_increasing(s, e, acc);
            },
        }
    }
}

proof fn lemma_chapter_list_shape(s: Seq<char>, h: Seq<(int, Seq<char>)>, n: int)
    requires
        positions_increasing(h, s.len() as int),
        0 <= n <= h.len(),
    ensures
        forall|k: int|
            0 <= k < chapter_list(s, h, n).len() ==> {
                let c = #[trigger] chapter_list(s, h, n)[k];
                &&& 1 <= c.0 <= n
                &&& c.2 == h[c.0 - 1].0
                &&& c.3 == heading_end(s, h, c.0 - 1)
                &&& !is_blank(s.subrange(c.2, c.3))
            },
        outline_ordered(chapter_list(s, h, n), s.len() as int),
        n > 0 ==> forall|p: int|
            h[0].0 <= p < heading_end(s, h, n - 1) && !is_ws(#[trigger] s[p]) ==> in_some_chapter(
                chapter_list(s, h, n),
                p,
            ),
    decreases n,
{
    if n > 0 {
        lemma_chapter_list_shape(s, h, n - 1);
        let prev = chapter_list(s, h, n - 1);
        let c = chapter_list(s, h, n);
        let i = n - 1;
        let start = h[i].0;
        let end = heading_end(s, h, i);
        assert(start < end <= s.len()) by {
            if i + 1 < h.len() {
                assert(h[i].0 < h[i + 1].0);
            }
        }
        if !is_blank(s.subrange(start, end)) {
            let e = (i + 1, h[i].1, start, end);
            assert(c == prev.push(e));
            assert forall|k: int| 0 <= k < prev.len() implies (#[trigger] prev[k]).3 <= start by {
                let j = prev[k].0 - 1;
                if j + 1 < h.len() {
                    if j + 1 < i {
                        assert(h[j + 1].0 < h[i].0);
                    }
                }
            }
            assert forall|k: int, l: int| 0 <= k < l < c.len() implies (#[trigger] c[k]).0 < (#[trigger] c[l]).0
                && c[k].3 <= c[l].2 by {
                assert(c[k] == prev[k]);
                if l < prev.len() {
                    assert(c[l] == prev[l]);
                }
            }
            assert forall|k: int| 0 <= k < c.len() implies 0 <= (#[trigger] c[k]).2 < c[k].3 <= s.len() by {
                if k < prev.len() {
                    assert(c[k] == prev[k]);
                }
            }
        }
        assert forall|p: int|
            h[0].0 <= p < heading_end(s, h, n - 1) && !is_ws(#[trigger] s[p]) implies in_some_chapter(c, p) by {
            if p >= start {
                assert(s.subrange(start, end)[p - start] == s[p]);
                assert(!is_blank(s.subrange(start, end)));
                assert(c[c.len() - 1].2 <= p < c[c.len() - 1].3);
            } else {
                assert(n - 1 > 0);
                assert(heading_end(s, h, n - 2) == start);
                let k = choose|k: int| 0 <= k < prev.len() && (#[trigger] prev[k]).2 <= p < prev[k].3;
                assert(c[k] == prev[k]);
            }
        }
    }
}

/// The chapters a text is split into come in order, each non-blank, none
/// overlapping the next, with increasing numbers; and every non-whitespace
/// char of the text lies in one of them, so only whitespace is left out.
pub proof fn lemma_chapters_cover_text(s: Seq<char>)
    ensures
        outline_ordered(chapter_outline(s), s.len() as int),
        forall|k: int|
            0 <= k < chapter_outline(s).len() ==> !is_blank(
                s.subrange((#[trigger] chapter_outline(s)[k]).2, chapter_outline(s)[k].3),
            ),
        forall|p: int| 0 <= p < s.len() && !is_ws(#[trigger] s[p]) ==> in_some_chapter(chapter_outline(s), p),
{
    let c = chapter_outline(s);
    if is_blank(s) {
    } else if heading_scan(s, 0, Seq::empty()).len() == 0 {
        assert(c == seq![(1int, "Chapter 1"@, 0int, s.len() as int)]);
        assert(s.subrange(0, s.len() as int) =~= s);
        assert forall|p: int| 0 <= p < s.len() && !is_ws(#[trigger] s[p]) implies in_some_chapter(c, p) by {
            assert(c[0].2 <= p < c[0].3);
        }
    } else {
        let h0 = heading_scan(s, 0, Seq::empty());
        lemma_heading_scan_increasing(s, 0, Seq::empty());
        let h = headings_with_preface(s);
        assert(positions_increasing(h, s.len() as int)) by {
            if h0.len() > 0 && h0[0].0 > 0 && !is_blank(s.subrange(0, h0[0].0)) {
                assert forall|a: int, b: int| 0 <= a < b < h.len() implies h[a].0 < h[b].0 by {
                    if a > 0 {
                        assert(h[a] == h0[a - 1] && h[b] == h0[b - 1]);
                    } else {
                        assert(h[b] == h0[b - 1]);
                        assert(h0[0].0 <= h0[b - 1].0);
                    }
                }
                assert forall|a: int| 0 <= a < h.len() implies 0 <= #[trigger] h[a].0 < s.len() by {
                    if a > 0 {
                        assert(h[a] == h0[a - 1]);
                    }
                }
            }
        }
        lemma_chapter_list_shape(s, h, h.len() as int);
        assert(heading_end(s, h, h.len() - 1) == s.len());
        assert forall|p: int| 0 <= p < s.len() && !is_ws(#[trigger] s[p]) implies in_some_chapter(c, p) by {
            if p < h[0].0 {
                assert(h == h0);
                assert(s.subrange(0, h0[0].0)[p] == s[p]);
            }
        }
    }
}

/// Segments in order: each range non-empty, non-blank and within `n`, each
/// ending where or before the next begins.
pub open spec fn segments_ordered(s: Seq<char>, acc: Seq<(int, int)>, n: int) -> bool {
    &&& forall|k: int|
        0 <= k < acc.len() ==> 0 <= (#[trigger] acc[k]).0 < acc[k].1 <= n && !is_blank(s.subrange(acc[k].0, acc[k].1))
    &&& forall|k: int, l: int| 0 <= k < l < acc.len() ==> (#[trigger] acc[k]).1 <= (#[trigger] acc[l]).0
}

/// Position `p` lies in one of the segments.
pub open spec fn in_some_segment(acc: Seq<(int, int)>, p: int) -> bool {
    exists|k: int| 0 <= k < acc.len() && (#[trigger] acc[k]).0 <= p < acc[k].1
}

/// What holds of a segment scan at `cursor`: the closed segments come before
/// the open one (or the cursor), and each non-whitespace char before the
/// cursor is in a closed segment or in the open one.
pub open spec fn segment_scan_inv(s: Seq<char>, cursor: int, open: Option<int>, acc: Seq<(int, int)>) -> bool {
    let bound = match open {
        Some(o) => o,
        None => cursor,
    };
    &&& 0 <= cursor <= s.len()
    &&& 0 <= bound <= cursor
    &&& segments_ordered(s, acc, bound)
    &&& forall|p: int|
        0 <= p < cursor && !is_ws(#[trigger] s[p]) ==> in_some_segment(acc, p) || (open matches Some(o) && o <= p)
}

proof fn lemma_close_segment(s: Seq<char>, cursor: int, open: Option<int>, acc: Seq<(int, int)>)
    requires
        segment_scan_inv(s, cursor, open, acc),
    ensures
        segments_ordered(s, close_segment(s, acc, open, cursor), cursor),
        forall|p: int|
            0 <= p < cursor && !is_ws(#[trigger] s[p]) ==> in_some_segment(close_segment(s, acc, open, cursor), p),
{
    let c = close_segment(s, acc, open, cursor);
    match open {
        Some(o) => {
            if !is_blank(s.subrange(o, cursor)) {
                assert(c == acc.push((o, cursor)));
                assert forall|k: int, l: int| 0 <= k < l < c.len() implies (#[trigger] c[k]).1 <= (#[trigger] c[l]).0 by {
                    assert(c[k] == acc[k]);
                    if l < acc.len() {
                        assert(c[l] == acc[l]);
                    }
                }
                assert forall|k: int| 0 <= k < c.len() implies 0 <= (#[trigger] c[k]).0 < c[k].1 <= cursor
                    && !is_blank(s.subrange(c[k].0, c[k].1)) by {
                    if k < acc.len() {
                        assert(c[k] == acc[k]);
                    } else {
                        assert(o < cursor);
                    }
                }
                assert forall|p: int| 0 <= p < cursor && !is_ws(#[trigger] s[p]) implies in_some_segment(c, p) by {
                    if o <= p {
                        assert(c[acc.len() as int] == (o, cursor));
                    } else {
                        let k = choose|k: int| 0 <= k < acc.len() && (#[trigger] acc[k]).0 <= p < acc[k].1;
                        assert(c[k] == acc[k]);
                    }
                }
            } else {
                assert forall|p: int| 0 <= p < cursor && !is_ws(#[trigger] s[p]) implies in_some_segment(c, p) by {
                    if o <= p {
                        assert(s.subrange(o, cursor)[p - o] == s[p]);
                    }
                }
            }
        },
        None => {},
    }
}

proof fn lemma_segment_scan_shape(s: Seq<char>, cursor: int, open: Option<int>, acc: Seq<(int, int)>)
    requires
        segment_scan_inv(s, cursor, open, acc),
    ensures
        segments_ordered(s, segment_scan(s, cursor, open, acc), s.len() as int),
        forall|p: int|
            0 <= p < s.len() && !is_ws(#[trigger] s[p]) ==> in_some_segment(segment_scan(s, cursor, open, acc), p),
    decreases s.len() - cursor,
{
    if cursor >= s.len() {
        lemma_close_segment(s, cursor, open, acc);
    } else {
        lemma_line_end_bounds(s, cursor);
        let e = line_end(s, cursor);
        if is_blank(s.subrange(cursor, e)) {
            lemma_close_segment(s, cursor, open, acc);
            let c = close_segment(s, acc, open, cursor);
            assert(segment_scan_inv(s, e, None, c)) by {
                assert forall|k: int| 0 <= k < c.len() implies 0 <= (#[trigger] c[k]).0 < c[k].1 <= e
                    && !is_blank(s.subrange(c[k].0, c[k].1)) by {}
                assert forall|p: int| 0 <= p < e && !is_ws(#[trigger] s[p]) implies in_some_segment(c, p) by {
                    if p >= cursor {
                        assert(s.subrange(cursor, e)[p - cursor] == s[p]);
                    }
                }
            }
            lemma_segment_scan_shape(s, e, None, c);
        } else {
            let o2 = match open {
                Some(o) => o,
                None => cursor,
            };
            assert(segment_scan_inv(s, e, Some(o2), acc)) by {
                assert forall|p: int| 0 <= p < e && !is_ws(#[trigger] s[p]) implies in_some_segment(acc, p)
                    || (Some(o2) matches Some(o) && o <= p) by {}
            }
            lemma_segment_scan_shape(s, e, Some(o2), acc);
        }
    }
}

/// The source segments of a chapter come in order, each non-blank, none
/// overlapping the next; and every non-whitespace char of the chapter lies
/// in one of them.
pub proof fn lemma_segments_cover_text(s: Seq<char>)
    ensures
        segments_ordered(s, source_segment_ranges(s), s.len() as int),
        forall|p: int|
            0 <= p < s.len() && !is_ws(#[trigger] s[p]) ==> in_some_segment(source_segment_ranges(s), p),
{
    assert(segment_scan_inv(s, 0, None, Seq::empty()));
    lemma_segment_scan_shape(s, 0, None, Seq::empty());
    let scanned = segment_scan(s, 0, None, Seq::empty());
    if scanned.len() == 0 && !is_blank(s) {
        let r = source_segment_ranges(s);
        assert(s.subrange(0, s.len() as int) =~= s);
        assert(r[0] == (0int, s.len() as int));
    }
}

// ------------------------------------------------------------------------
// Previews begin where the chapter begins.
// ------------------------------------------------------------------------
/// A preview is the beginning of the chapter's text with its whitespace
/// runs collapsed: the first `max_chars` chars of it, or all of it when it
/// is shorter.
pub proof fn lemma_preview_is_collapsed_prefix(s: Seq<char>, max_chars: int)
    requires
        max_chars >= 0,
    ensures
        preview_of(s, max_chars).len() == if collapse_ws(s).len() <= max_chars {
            collapse_ws(s).len() as int
        } else {
            max_chars
        },
        forall|i: int| 0 <= i < preview_of(s, max_chars).len() ==> #[trigger] preview_of(s, max_chars)[i]
            == collapse_ws(s)[i],
{
}

// ------------------------------------------------------------------------
// Guessing the language from the scripts.
// ------------------------------------------------------------------------
/// How many chars of `s` satisfy `p`.
pub open spec fn count_where(s: Seq<char>, p: spec_fn(char) -> bool) -> int {
    s.filter(p).len() as int
}

/// The first 12000 chars, which the guess looks at.
pub open spec fn language_sample(s: Seq<char>) -> Seq<char> {
    if s.len() <= 12000 {
        s
    } else {
        s.take(12000)
    }
}

proof fn lemma_script_counts_filters(s: Seq<char>)
    ensures
        script_counts(s).0 == count_where(s, |c: char| is_han(c)),
        script_counts(s).1 == count_where(s, |c: char| is_kana(c)),
        script_counts(s).2 == count_where(s, |c: char| is_hangul(c)),
        script_counts(s).3 == count_where(s, |c: char| is_ascii_alpha(c) || is_vietnamese_marked(c)),
        script_counts(s).4 == count_where(s, |c: char| is_vietnamese_marked(c)),
    decreases s.len(),
{
    reveal(Seq::filter);
    if s.len() > 0 {
        lemma_script_counts_filters(s.drop_last());
        let c = s.last();
        assert(s.drop_last().push(c) =~= s);
        s.drop_last().lemma_filter_len_push(|c: char| is_han(c), c);
        s.drop_last().lemma_filter_len_push(|c: char| is_kana(c), c);
        s.drop_last().lemma_filter_len_push(|c: char| is_hangul(c), c);
        s.drop_last().lemma_filter_len_push(|c: char| is_ascii_alpha(c) || is_vietnamese_marked(c), c);
        s.drop_last().lemma_filter_len_push(|c: char| is_vietnamese_marked(c), c);
    }
}

/// The language guessed from the first 12000 chars, by how many chars of
/// each script they hold: Japanese from 8 kana on; else Korean from 8
/// hangul on; else Chinese from 16 Han chars on when Han chars outnumber
/// Latin letters; else Vietnamese from 8 Vietnamese marked letters on; else
/// English from 32 Latin letters on; else no guess.
pub proof fn lemma_language_guess(s: Seq<char>)
    ensures
        ({
            let t = language_sample(s);
            let han = count_where(t, |c: char| is_han(c));
            let kana = count_where(t, |c: char| is_kana(c));
            let hangul = count_where(t, |c: char| is_hangul(c));
            let latin = count_where(t, |c: char| is_ascii_alpha(c) || is_vietnamese_marked(c));
            let marked = count_where(t, |c: char| is_vietnamese_marked(c));
            guessed_language(s) == if kana >= 8 {
                Some("ja"@)
            } else if hangul >= 8 {
                Some("ko"@)
            } else if han >= 16 && han > latin {
                Some("zh"@)
            } else if marked >= 8 {
                Some("vi"@)
            } else if latin >= 32 {
                Some("en"@)
            } else {
                None::<Seq<char>>
            }
        }),
{
    lemma_script_counts_filters(language_sample(s));
}

/// Text counts as Chinese when, in its first 12000 chars, there are fewer
/// than 8 kana and fewer than 8 hangul, at least 16 Han chars, and more Han
/// chars than Latin letters (ASCII or Vietnamese).
pub proof fn lemma_guess_chinese(s: Seq<char>)
    requires
        count_where(language_sample(s), |c: char| is_kana(c)) < 8,
        count_where(language_sample(s), |c: char| is_hangul(c)) < 8,
        count_where(language_sample(s), |c: char| is_han(c)) >= 16,
        count_where(language_sample(s), |c: char| is_han(c)) > count_where(
            language_sample(s),
            |c: char| is_ascii_alpha(c) || is_vietnamese_marked(c),
        ),
    ensures
        guessed_language(s) == Some("zh"@),
{
    lemma_script_counts_filters(language_sample(s));
}

/// A char that is neither a letter of a counted script nor kana or hangul:
/// CJK and full-width punctuation, digits, spaces.
pub open spec fn uncounted(c: char) -> bool {
    !is_han(c) && !is_kana(c) && !is_hangul(c) && !is_ascii_alpha(c) && !is_vietnamese_marked(c)
}

/// A text made only of Han chars and punctuation (no kana, hangul or Latin
/// letters), with at least 16 Han chars among its first 12000, is guessed
/// as Chinese.
pub proof fn lemma_han_only_text_is_chinese(s: Seq<char>)
    requires
        forall|i: int| 0 <= i < s.len() ==> is_han(#[trigger] s[i]) || uncounted(s[i]),
        count_where(language_sample(s), |c: char| is_han(c)) >= 16,
    ensures
        guessed_language(s) == Some("zh"@),
{
    let t = language_sample(s);
    assert forall|i: int| 0 <= i < t.len() implies is_han(#[trigger] t[i]) || uncounted(t[i]) by {
        assert(t[i] == s[i]);
    }
    lemma_no_other_scripts(t);
    lemma_guess_chinese(s);
}

proof fn lemma_no_other_scripts(t: Seq<char>)
    requires
        forall|i: int| 0 <= i < t.len() ==> is_han(#[trigger] t[i]) || uncounted(t[i]),
    ensures
        count_where(t, |c: char| is_kana(c)) == 0,
        count_where(t, |c: char| is_hangul(c)) == 0,
        count_where(t, |c: char| is_ascii_alpha(c) || is_vietnamese_marked(c)) == 0,
    decreases t.len(),
{
    reveal(Seq::filter);
    if t.len() > 0 {
        let d = t.drop_last();
        assert forall|i: int| 0 <= i < d.len() implies is_han(#[trigger] d[i]) || uncounted(d[i]) by {
            assert(d[i] == t[i]);
        }
        lemma_no_other_scripts(d);
        let c = t.last();
        assert(is_han(t[t.len() - 1]) || uncounted(t[t.len() - 1]));
        assert(d.push(c) =~= t);
        d.lemma_filter_len_push(|c: char| is_kana(c), c);
        d.lemma_filter_len_push(|c: char| is_hangul(c), c);
        d.lemma_filter_len_push(|c: char| is_ascii_alpha(c) || is_vietnamese_marked(c), c);
    }
}

// ------------------------------------------------------------------------
// Prologue and epilogue lines are headings.
// ------------------------------------------------------------------------
/// A trimmed line of at most 96 chars, not a Markdown heading, whose
/// lowercase is `prologue` or `epilogue` is a chapter heading with the line
/// itself as title.
pub proof fn lemma_prologue_epilogue_headings(t: Seq<char>)
    requires
        0 < t.len() <= 96,
        t[0] != '#',
        str_lowercase(t) == "prologue"@ || str_lowercase(t) == "epilogue"@,
    ensures
        heading_title(t) == Some(t),
{
}

proof fn lemma_heading_scan_extends(s: Seq<char>, cursor: int, acc: Seq<(int, Seq<char>)>)
    requires
        0 <= cursor,
    ensures
        heading_scan(s, cursor, acc).len() >= acc.len(),
        forall|k: int| 0 <= k < acc.len() ==> #[trigger] heading_scan(s, cursor, acc)[k] == acc[k],
        forall|k: int|
            acc.len() <= k < heading_scan(s, cursor, acc).len() ==> (#[trigger] heading_scan(s, cursor, acc)[k]).0
                >= cursor,
    decreases s.len() - cursor,
{
    if cursor < s.len() {
        lemma_line_end_bounds(s, cursor);
        let e = line_end(s, cursor);
        match heading_title(trim(s.subrange(cursor, e))) {
            Some(title) => {
                let next = acc.push((cursor, title));
                lemma_heading_scan_extends(s, e, next);
                let r = heading_scan(s, cursor, acc);
                assert forall|k: int| 0 <= k < acc.len() implies #[trigger] r[k] == acc[k] by {
                    assert(r[k] == next[k]);
                }
                assert forall|k: int| acc.len() <= k < r.len() implies (#[trigger] r[k]).0 >= cursor by {
                    if k == acc.len() {
                        assert(r[k] == next[k]);
                    }
                }
            },
            None => {
                lemma_heading_scan_extends(s, e, acc);
            },
        }
    }
}

proof fn lemma_chapter_list_prefix(s: Seq<char>, h: Seq<(int, Seq<char>)>, m: int, n: int)
    requires
        0 <= m <= n,
    ensures
        chapter_list(s, h, n).len() >= chapter_list(s, h, m).len(),
        forall|k: int| 0 <= k < chapter_list(s, h, m).len() ==> #[trigger] chapter_list(s, h, n)[k] == chapter_list(s, h, m)[k],
    decreases n - m,
{
    if m < n {
        lemma_chapter_list_prefix(s, h, m, n - 1);
        let prev = chapter_list(s, h, n - 1);
        let c = chapter_list(s, h, n);
        assert forall|k: int| 0 <= k < chapter_list(s, h, m).len() implies #[trigger] chapter_list(s, h, n)[k]
            == chapter_list(s, h, m)[k] by {
            assert(c[k] == prev[k]);
        }
    }
}

/// A text whose first line is a heading of at most 96 chars, such as a
/// `Prologue` line, starts its first chapter at 0, numbered 1, with that
/// line as title.
pub proof fn lemma_first_line_heading_starts_first_chapter(s: Seq<char>)
    requires
        s.len() > 0,
        heading_title(trim(s.subrange(0, line_end(s, 0)))) == Some(trim(s.subrange(0, line_end(s, 0)))),
    ensures
        chapter_outline(s).len() > 0,
        chapter_outline(s)[0].0 == 1,
        chapter_outline(s)[0].1 == trim(s.subrange(0, line_end(s, 0))),
        chapter_outline(s)[0].2 == 0,
{
    lemma_line_end_bounds(s, 0);
    let e = line_end(s, 0);
    let t = trim(s.subrange(0, e));
    assert(t.len() > 0);
    let h0 = heading_scan(s, 0, Seq::empty());
    assert(h0 == heading_scan(s, e, seq![(0int, t)]));
    lemma_heading_scan_extends(s, e, seq![(0int, t)]);
    assert(h0[0] == (0int, t));
    assert(!is_blank(s)) by {
        if is_blank(s) {
            assert(is_blank(s.subrange(0, e))) by {
                assert forall|i: int| 0 <= i < e implies is_ws(#[trigger] s.subrange(0, e)[i]) by {
                    assert(s.subrange(0, e)[i] == s[i]);
                }
            }
            lemma_blank_trims_empty(s.subrange(0, e));
        }
    }
    let h = headings_with_preface(s);
    assert(h == h0);
    lemma_heading_scan_increasing(s, 0, Seq::empty());
    let end0 = heading_end(s, h, 0);
    assert(e <= end0) by {
        if 1 < h.len() {
            assert(h[1].0 >= e);
        }
    }
    assert(!is_blank(s.subrange(0, end0))) by {
        if is_blank(s.subrange(0, end0)) {
            assert(is_blank(s.subrange(0, e))) by {
                assert forall|i: int| 0 <= i < e implies is_ws(#[trigger] s.subrange(0, e)[i]) by {
                    assert(s.subrange(0, e)[i] == s.subrange(0, end0)[i]);
                }
            }
            lemma_blank_trims_empty(s.subrange(0, e));
        }
    }
    assert(chapter_list(s, h, 0) =~= Seq::<(int, Seq<char>, int, int)>::empty());
    assert(chapter_list(s, h, 1) == seq![(1int, t, 0int, end0)]);
    lemma_chapter_list_prefix(s, h, 1, h.len() as int);
    assert(chapter_outline(s) == chapter_list(s, h, h.len() as int));
    assert(chapter_list(s, h, h.len() as int)[0] == chapter_list(s, h, 1)[0]);
}

} // verus!
