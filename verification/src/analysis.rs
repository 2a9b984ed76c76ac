//! The analysis run: how a chapter is cut into chunks for the character
//! passes, the novel context the passes are given, the chapter range a run
//! step covers, which chapter comes next, and the progress a run reports.
use vstd::prelude::*;
use crate::domain::{AnalysisChapterRun, AnalysisJob, AnalysisRunStepInput, Chapter, Novel};
use crate::errors::ApiError;
use crate::text::{chars_of, is_blank, opt_view, owned, push_str, string_of_range, trim, trim_str};

verus! {

/// The length a chunk aims at, in chars.
pub const CHARACTER_EXTRACTION_CHUNK_TARGET_CHARS: usize = 2400;

/// The shortest chunk cut at a paragraph, line or sentence end.
pub const CHARACTER_EXTRACTION_CHUNK_MIN_CHARS: usize = 900;

// ------------------------------------------------------------------------
// Chunking a chapter.
// ------------------------------------------------------------------------
/// The places a chunk may end after: a blank line (kind 0), a line end
/// (kind 1), a sentence end (kind 2).
pub open spec fn break_at(cs: Seq<char>, i: int, kind: int) -> bool {
    if kind == 0 {
        cs[i] == '\n' && i + 1 < cs.len() && cs[i + 1] == '\n'
    } else if kind == 1 {
        cs[i] == '\n'
    } else {
        cs[i] == '.' || cs[i] == '!' || cs[i] == '?' || cs[i] == '。' || cs[i] == '！' || cs[i]
            == '？'
    }
}

/// The last index in `[lo, hi)` where a break of the kind stands.
pub open spec fn last_break(cs: Seq<char>, lo: int, hi: int, kind: int) -> Option<int>
    decreases hi - lo,
{
    if hi <= lo {
        None
    } else if break_at(cs, hi - 1, kind) {
        Some(hi - 1)
    } else {
        last_break(cs, lo, hi - 1, kind)
    }
}

/// Where the chunk that starts at `start` ends: the rest of the chapter when
/// it fits the target; else, within the target and past the minimum, after
/// the last blank line, else the last line end, else the last sentence end,
/// else at the target.
pub open spec fn chunk_end(cs: Seq<char>, start: int) -> int {
    let target = CHARACTER_EXTRACTION_CHUNK_TARGET_CHARS as int;
    let min = CHARACTER_EXTRACTION_CHUNK_MIN_CHARS as int;
    if cs.len() - start <= target {
        cs.len() as int
    } else {
        let hard = start + target;
        match last_break(cs, start + min, hard, 0) {
            Some(i) => i + 2,
            None => match last_break(cs, start + min, hard, 1) {
                Some(i) => i + 1,
                None => match last_break(cs, start + min, hard, 2) {
                    Some(i) => i + 1,
                    None => hard,
                },
            },
        }
    }
}

pub proof fn lemma_last_break(cs: Seq<char>, lo: int, hi: int, kind: int)
    ensures
        last_break(cs, lo, hi, kind) matches Some(i) ==> lo <= i < hi && break_at(cs, i, kind),
    decreases hi - lo,
{
    if hi > lo && !break_at(cs, hi - 1, kind) {
        lemma_last_break(cs, lo, hi - 1, kind);
    }
}

pub proof fn lemma_chunk_end(cs: Seq<char>, start: int)
    requires
        0 <= start < cs.len(),
    ensures
        start < chunk_end(cs, start) <= cs.len(),
{
    let target = CHARACTER_EXTRACTION_CHUNK_TARGET_CHARS as int;
    let min = CHARACTER_EXTRACTION_CHUNK_MIN_CHARS as int;
    let hard = start + target;
    lemma_last_break(cs, start + min, hard, 0);
    lemma_last_break(cs, start + min, hard, 1);
    lemma_last_break(cs, start + min, hard, 2);
}

fn last_break_exec(cs: &Vec<char>, lo: usize, hi: usize, kind: u8) -> (r: Option<usize>)
    requires
        lo <= hi <= cs@.len(),
        kind <= 2,
    ensures
        match r {
            Some(i) => last_break(cs@, lo as int, hi as int, kind as int) == Some(i as int),
            None => last_break(cs@, lo as int, hi as int, kind as int) is None,
        },
{
    let mut h = hi;
    while h > lo
        invariant
            lo <= h <= hi,
            hi <= cs@.len(),
            kind <= 2,
            last_break(cs@, lo as int, hi as int, kind as int) == last_break(
                cs@,
                lo as int,
                h as int,
                kind as int,
            ),
        decreases h - lo,
    {
        let i = h - 1;
        let c = cs[i];
        let hit = if kind == 0 {
            c == '\n' && i + 1 < cs.len() && cs[i + 1] == '\n'
        } else if kind == 1 {
            c == '\n'
        } else {
            c == '.' || c == '!' || c == '?' || c == '。' || c == '！' || c == '？'
        };
        if hit {
            return Some(i);
        }
        h -= 1;
    }
    None
}

/// Where a chunk of a chapter that starts at `start` ends: at a paragraph or
/// sentence break near the chunk size, else at the size limit or the end.
pub fn choose_character_extraction_chunk_end(chars: &Vec<char>, start: usize) -> (r: usize)
    requires
        start < chars@.len(),
    ensures
        r == chunk_end(chars@, start as int),
        start < r <= chars@.len(),
{
    proof {
        lemma_chunk_end(chars@, start as int);
    }
    let remaining = chars.len() - start;
    if remaining <= CHARACTER_EXTRACTION_CHUNK_TARGET_CHARS {
        return chars.len();
    }
    let hard_end = start + CHARACTER_EXTRACTION_CHUNK_TARGET_CHARS;
    let min_end = start + CHARACTER_EXTRACTION_CHUNK_MIN_CHARS;
    if let Some(i) = last_break_exec(chars, min_end, hard_end, 0) {
        return i + 2;
    }
    if let Some(i) = last_break_exec(chars, min_end, hard_end, 1) {
        return i + 1;
    }
    if let Some(i) = last_break_exec(chars, min_end, hard_end, 2) {
        return i + 1;
    }
    hard_end
}

/// The chunks from `start` on, as `[start, end)` ranges, blank ones left out.
pub open spec fn chunks_from(cs: Seq<char>, start: int) -> Seq<(int, int)>
    decreases cs.len() - start,
{
    if start < 0 || start >= cs.len() {
        seq![]
    } else {
        proof {
            lemma_chunk_end(cs, start);
        }
        let end = chunk_end(cs, start);
        let next = if end > start {
            end
        } else {
            start + 1
        };
        let rest = chunks_from(cs, next);
        if is_blank(cs.subrange(start, end)) {
            rest
        } else {
            seq![(start, end)] + rest
        }
    }
}

/// The chunks of a chapter: its non-blank chunks, or the whole chapter as one
/// chunk when there are none (an empty chapter gives one empty chunk).
pub open spec fn chapter_chunks(cs: Seq<char>) -> Seq<(int, int)> {
    if cs.len() == 0 || chunks_from(cs, 0).len() == 0 {
        seq![(0, cs.len() as int)]
    } else {
        chunks_from(cs, 0)
    }
}

/// A chunk of a chapter, with its char range in the chapter.
#[derive(Debug, Clone)]
pub struct CharacterExtractionChunk {
    pub start_char: i64,
    pub end_char: i64,
    pub text: String,
}

pub open spec fn chunk_ranges(chunks: Seq<CharacterExtractionChunk>) -> Seq<(int, int)> {
    chunks.map_values(|c: CharacterExtractionChunk| (c.start_char as int, c.end_char as int))
}

/// Each chunk's text is the chapter's text over its range.
pub open spec fn chunks_hold_text(text: Seq<char>, chunks: Seq<CharacterExtractionChunk>) -> bool {
    forall|k: int|
        0 <= k < chunks.len() ==> {
            let c = #[trigger] chunks[k];
            0 <= c.start_char <= c.end_char <= text.len() && c.text@ == text.subrange(
                c.start_char as int,
                c.end_char as int,
            )
        }
}

/// Cuts a chapter into chunks for the character passes.
pub fn split_chapter_for_character_extraction(text: &str) -> (r: Vec<CharacterExtractionChunk>)
    requires
        text@.len() < i64::MAX,
    ensures
        chunk_ranges(r@) == chapter_chunks(text@),
        chunks_hold_text(text@, r@),
{
    let chars = chars_of(text);
    if chars.len() == 0 {
        let v = vec![CharacterExtractionChunk { start_char: 0, end_char: 0, text: owned("") }];
        proof {
            assert(chunk_ranges(v@) =~= chapter_chunks(text@));
            reveal_strlit("");
            assert(text@.subrange(0, 0) =~= ""@);
        }
        return v;
    }
    let mut chunks: Vec<CharacterExtractionChunk> = Vec::new();
    let mut start: usize = 0;
    while start < chars.len()
        invariant
            chars@ == text@,
            chars@.len() < i64::MAX,
            0 <= start <= chars@.len(),
            chunk_ranges(chunks@) + chunks_from(chars@, start as int) == chunks_from(chars@, 0),
            chunks_hold_text(text@, chunks@),
        decreases chars@.len() - start,
    {
        let end = choose_character_extraction_chunk_end(&chars, start);
        let chunk_text = string_of_range(&chars, start, end);
        let ghost before = chunk_ranges(chunks@);
        if !crate::text::str_is_blank(chunk_text.as_str()) {
            chunks.push(
                CharacterExtractionChunk {
                    start_char: start as i64,
                    end_char: end as i64,
                    text: chunk_text,
                },
            );
            proof {
                assert(chunk_ranges(chunks@) =~= before.push((start as int, end as int)));
                assert(chunks_from(chars@, start as int) =~= seq![(start as int, end as int)]
                    + chunks_from(chars@, end as int));
                assert(before + chunks_from(chars@, start as int) =~= before.push(
                    (start as int, end as int),
                ) + chunks_from(chars@, end as int));
            }
        }
        start = end;
    }
    if chunks.len() == 0 {
        let whole = CharacterExtractionChunk {
            start_char: 0,
            end_char: chars.len() as i64,
            text: owned(text),
        };
        chunks.push(whole);
        proof {
            assert(chunks_from(chars@, 0).len() == 0);
            assert(chunk_ranges(chunks@) =~= chapter_chunks(text@));
            assert(text@.subrange(0, text@.len() as int) =~= text@);
        }
        return chunks;
    }
    proof {
        assert(chunks_from(chars@, chars@.len() as int) =~= seq![]);
        assert(chunk_ranges(chunks@) + seq![] =~= chunk_ranges(chunks@));
    }
    chunks
}

// ------------------------------------------------------------------------
// The novel context the passes are given.
// ------------------------------------------------------------------------
pub const NOVEL_CONTEXT_PART_0: &'static str = "Current novel metadata:\n- Title: ";

pub const NOVEL_CONTEXT_PART_1: &'static str = "\n- Author: ";

pub const NOVEL_CONTEXT_PART_2: &'static str = "\n- Source language: ";

pub const NOVEL_CONTEXT_PART_3: &'static str = "\n- Genre: ";

pub const NOVEL_CONTEXT_PART_4: &'static str = "\n- Description: ";

pub const NOVEL_CONTEXT_PART_5: &'static str = "\n\nGenre guidance:\n- Dùng Genre và Description để chọn phong cách nhãn, cách hiểu danh xưng, vai trò, quan hệ, năng lực và chi tiết nhân vật phù hợp với bối cảnh truyện hiện tại.\n- Không dùng metadata làm evidence. Mọi nhân vật, alias, field, mention và relationship được output vẫn phải có chứng cứ trực tiếp trong CHAPTER_TEXT hoặc TARGET_CONTEXTS của request hiện tại.\n- Không ép output theo một taxonomy cố định nếu thể loại hoặc văn cảnh yêu cầu cách gọi tự nhiên hơn.\n- Output label tiếng Việt có dấu, rõ nghĩa với người đọc truyện, nhưng field_key vẫn phải dùng ASCII snake_case khi schema yêu cầu.\n- Nếu Genre hoặc Description rỗng, mơ hồ, hoặc xung đột với chương hiện tại, ưu tiên chứng cứ trong chương.";

/// The trimmed metadata of a novel: title, author, source language, genre,
/// description (a missing one is empty).
pub open spec fn novel_field(novel: Novel, index: int) -> Seq<char> {
    if index == 0 {
        trim(novel.title@)
    } else {
        let value = if index == 1 {
            novel.author
        } else if index == 2 {
            novel.source_language
        } else if index == 3 {
            novel.genre
        } else {
            novel.description
        };
        match value {
            Some(v) => trim(v@),
            None => seq![],
        }
    }
}

/// The metadata block with genre guidance that opens the passes' context.
pub open spec fn novel_analysis_context(novel: Novel) -> Seq<char> {
    NOVEL_CONTEXT_PART_0@ + novel_field(novel, 0) + NOVEL_CONTEXT_PART_1@ + novel_field(novel, 1) + NOVEL_CONTEXT_PART_2@ + novel_field(novel, 2) + NOVEL_CONTEXT_PART_3@ + novel_field(novel, 3) + NOVEL_CONTEXT_PART_4@ + novel_field(novel, 4) + NOVEL_CONTEXT_PART_5@
}

fn trimmed_or_empty(value: &Option<String>) -> (r: String)
    ensures
        r@ == match *value {
            Some(v) => trim(v@),
            None => seq![],
        },
{
    match value {
        Some(v) => trim_str(v.as_str()),
        None => String::new(),
    }
}

/// The novel context every pass starts from: title, author, language,
/// genre and description, with the rules on how to use them.
pub fn build_current_novel_analysis_context(novel: &Novel) -> (r: String)
    ensures
        r@ == novel_analysis_context(*novel),
{
    let title = trim_str(novel.title.as_str());
    let author = trimmed_or_empty(&novel.author);
    let source_language = trimmed_or_empty(&novel.source_language);
    let genre = trimmed_or_empty(&novel.genre);
    let description = trimmed_or_empty(&novel.description);
    let mut out = owned(NOVEL_CONTEXT_PART_0);
    push_str(&mut out, title.as_str());
    push_str(&mut out, NOVEL_CONTEXT_PART_1);
    push_str(&mut out, author.as_str());
    push_str(&mut out, NOVEL_CONTEXT_PART_2);
    push_str(&mut out, source_language.as_str());
    push_str(&mut out, NOVEL_CONTEXT_PART_3);
    push_str(&mut out, genre.as_str());
    push_str(&mut out, NOVEL_CONTEXT_PART_4);
    push_str(&mut out, description.as_str());
    push_str(&mut out, NOVEL_CONTEXT_PART_5);
    out
}

// ------------------------------------------------------------------------
// The chapter range of a run step.
// ------------------------------------------------------------------------
/// The chapters `from..=to` a run step is limited to.
#[derive(Debug, Clone, Copy, PartialEq, Eq, Structural)]
pub struct ChapterRange {
    pub from: i64,
    pub to: i64,
}

/// A valid range, or why it is not.
pub open spec fn range_checked(from: i64, to: i64) -> Result<ChapterRange, Seq<char>> {
    if from < 1 || to < 1 {
        Err("chapter range must start from 1 or greater"@)
    } else if to < from {
        Err("to chapter must be greater than or equal to from chapter"@)
    } else {
        Ok(ChapterRange { from, to })
    }
}

/// `r` is the range `expected` gives, or `400` with its message.
pub open spec fn answers_range<T>(r: Result<T, ApiError>, expected: Result<T, Seq<char>>) -> bool {
    match r {
        Ok(v) => expected == Ok::<T, Seq<char>>(v),
        Err(e) => e.status == 400 && e.code@ == "invalid_request"@ && expected == Err::<
            T,
            Seq<char>,
        >(e.message@),
    }
}

pub fn validate_chapter_range(from: i64, to: i64) -> (r: Result<ChapterRange, ApiError>)
    ensures
        answers_range(r, range_checked(from, to)),
{
    if from < 1 || to < 1 {
        return Err(ApiError::bad_request(owned("chapter range must start from 1 or greater")));
    }
    if to < from {
        return Err(
            ApiError::bad_request(owned("to chapter must be greater than or equal to from chapter")),
        );
    }
    Ok(ChapterRange { from, to })
}

/// The range a step input asks for: none when it names no chapter; a single
/// chapter when it names one end only.
pub open spec fn input_range(input: AnalysisRunStepInput) -> Result<Option<ChapterRange>, Seq<char>> {
    let checked = match (input.from_chapter_num, input.to_chapter_num) {
        (None, None) => None,
        (Some(from), None) => Some(range_checked(from, from)),
        (Some(from), Some(to)) => Some(range_checked(from, to)),
        (None, Some(to)) => Some(range_checked(to, to)),
    };
    match checked {
        None => Ok(None),
        Some(Ok(range)) => Ok(Some(range)),
        Some(Err(m)) => Err(m),
    }
}

pub fn chapter_range_from_input(input: &AnalysisRunStepInput) -> (r: Result<Option<ChapterRange>, ApiError>)
    ensures
        answers_range(r, input_range(*input)),
{
    let checked = match (input.from_chapter_num, input.to_chapter_num) {
        (None, None) => return Ok(None),
        (Some(from), None) => validate_chapter_range(from, from),
        (Some(from), Some(to)) => validate_chapter_range(from, to),
        (None, Some(to)) => validate_chapter_range(to, to),
    };
    match checked {
        Ok(range) => Ok(Some(range)),
        Err(e) => Err(e),
    }
}

// ------------------------------------------------------------------------
// The next chapter.
// ------------------------------------------------------------------------
/// Some completed run belongs to the chapter with this id.
pub open spec fn chapter_completed(runs: Seq<AnalysisChapterRun>, chapter_id: Seq<char>) -> bool {
    exists|i: int|
        0 <= i < runs.len() && #[trigger] runs[i].status@ == "completed"@ && runs[i].chapter_id@
            == chapter_id
}

pub open spec fn in_range(chapter: Chapter, range: Option<ChapterRange>) -> bool {
    match range {
        Some(r) => r.from <= chapter.chapter_num <= r.to,
        None => true,
    }
}

/// A chapter still to analyse: in the range and not completed.
pub open spec fn chapter_pending(chapter: Chapter, runs: Seq<AnalysisChapterRun>, range: Option<ChapterRange>) -> bool {
    in_range(chapter, range) && !chapter_completed(runs, chapter.id@)
}

/// The first chapter still to analyse, by position.
pub open spec fn first_pending(
    chapters: Seq<Chapter>,
    runs: Seq<AnalysisChapterRun>,
    range: Option<ChapterRange>,
    i: int,
) -> Option<int>
    decreases chapters.len() - i,
{
    if i < 0 || i >= chapters.len() {
        None
    } else if chapter_pending(chapters[i], runs, range) {
        Some(i)
    } else {
        first_pending(chapters, runs, range, i + 1)
    }
}

fn completed_for(runs: &Vec<AnalysisChapterRun>, chapter_id: &str) -> (r: bool)
    ensures
        r == chapter_completed(runs@, chapter_id@),
{
    let mut i: usize = 0;
    while i < runs.len()
        invariant
            0 <= i <= runs@.len(),
            forall|k: int|
                0 <= k < i ==> !(#[trigger] runs@[k].status@ == "completed"@ && runs@[k].chapter_id@
                    == chapter_id@),
        decreases runs@.len() - i,
    {
        if crate::text::str_eq(runs[i].status.as_str(), "completed") && crate::text::str_eq(
            runs[i].chapter_id.as_str(),
            chapter_id,
        ) {
            return true;
        }
        i += 1;
    }
    false
}

/// The index of the first chapter still to analyse.
pub fn next_chapter_index(
    chapters: &Vec<Chapter>,
    runs: &Vec<AnalysisChapterRun>,
    range: Option<ChapterRange>,
) -> (r: Option<usize>)
    ensures
        match r {
            Some(i) => first_pending(chapters@, runs@, range, 0) == Some(i as int) && i
                < chapters@.len(),
            None => first_pending(chapters@, runs@, range, 0) is None,
        },
{
    let mut i: usize = 0;
    while i < chapters.len()
        invariant
            0 <= i <= chapters@.len(),
            first_pending(chapters@, runs@, range, 0) == first_pending(
                chapters@,
                runs@,
                range,
                i as int,
            ),
        decreases chapters@.len() - i,
    {
        let chapter = &chapters[i];
        let in_range = match range {
            Some(r) => r.from <= chapter.chapter_num && chapter.chapter_num <= r.to,
            None => true,
        };
        if in_range && !completed_for(runs, chapter.id.as_str()) {
            return Some(i);
        }
        i += 1;
    }
    None
}

/// The first chapter still to analyse.
pub fn next_chapter<'a>(
    chapters: &'a Vec<Chapter>,
    runs: &Vec<AnalysisChapterRun>,
    range: Option<ChapterRange>,
) -> (r: Option<&'a Chapter>)
    ensures
        match first_pending(chapters@, runs@, range, 0) {
            Some(i) => r == Some(&chapters@[i]),
            None => r is None,
        },
{
    match next_chapter_index(chapters, runs, range) {
        Some(i) => Some(&chapters[i]),
        None => None,
    }
}

/// What ends a step: the job completes when no chapter at all is left; a
/// range that is done pauses the job with a note; otherwise nothing happens.
#[derive(Debug)]
pub enum FinishAction {
    CompleteJob,
    PauseRange { reason: String },
    Continue,
}

/// The note a finished range pauses the job with.
pub open spec fn range_done_reason(range: ChapterRange) -> Seq<char> {
    "Đã chạy xong phạm vi chương "@ + crate::text::int_decimal(range.from as int) + " -> "@
        + crate::text::int_decimal(range.to as int) + "."@
}

/// What finishing a chapter leads to: the next chapter of the range, the
/// end of the range, or the end of the job.
pub fn finish_action(
    chapters: &Vec<Chapter>,
    runs: &Vec<AnalysisChapterRun>,
    range: Option<ChapterRange>,
) -> (r: FinishAction)
    ensures
        first_pending(chapters@, runs@, None, 0) is None ==> r is CompleteJob,
        first_pending(chapters@, runs@, None, 0) is Some ==> match range {
            Some(rg) => if first_pending(chapters@, runs@, range, 0) is None {
                r matches FinishAction::PauseRange { reason } && reason@ == range_done_reason(rg)
            } else {
                r is Continue
            },
            None => r is Continue,
        },
{
    if next_chapter_index(chapters, runs, None).is_none() {
        return FinishAction::CompleteJob;
    }
    match range {
        Some(rg) => {
            if next_chapter_index(chapters, runs, range).is_none() {
                let mut reason = owned("Đã chạy xong phạm vi chương ");
                let from = crate::text::i64_to_string(rg.from);
                let to = crate::text::i64_to_string(rg.to);
                push_str(&mut reason, from.as_str());
                push_str(&mut reason, " -> ");
                push_str(&mut reason, to.as_str());
                push_str(&mut reason, ".");
                FinishAction::PauseRange { reason }
            } else {
                FinishAction::Continue
            }
        },
        None => FinishAction::Continue,
    }
}

/// A job stops between passes once it is paused, cancelled, completed or failed.
pub open spec fn job_stops(status: Seq<char>) -> bool {
    status == "paused"@ || status == "cancelled"@ || status == "completed"@ || status == "failed"@
}

pub fn analysis_job_should_stop(job: &AnalysisJob) -> (r: bool)
    ensures
        r == job_stops(job.status@),
{
    let s = job.status.as_str();
    crate::text::str_eq(s, "paused") || crate::text::str_eq(s, "cancelled")
        || crate::text::str_eq(s, "completed") || crate::text::str_eq(s, "failed")
}

// ------------------------------------------------------------------------
// Run progress.
// ------------------------------------------------------------------------
/// A chapter's place in an analysis run.
#[derive(Debug, Clone, PartialEq, Eq)]
pub struct AnalysisChapterState {
    pub chapter_id: String,
    pub chapter_num: i64,
    pub title: String,
    pub status: String,
    pub run_id: Option<String>,
    pub attempt: Option<i64>,
    pub prompt_schema_version: Option<String>,
    pub error_code: Option<String>,
    pub error_message: Option<String>,
    pub started_at: Option<String>,
    pub finished_at: Option<String>,
    pub updated_at: Option<String>,
}

/// The last run (by position) that belongs to the chapter, among the first `n`.
pub open spec fn last_run_for(runs: Seq<AnalysisChapterRun>, chapter_id: Seq<char>, n: int) -> Option<int>
    decreases n,
{
    if n <= 0 || n > runs.len() {
        None
    } else if runs[n - 1].chapter_id@ == chapter_id {
        Some(n - 1)
    } else {
        last_run_for(runs, chapter_id, n - 1)
    }
}

/// The state of a chapter given its run, if it has one (`pending` if not).
pub open spec fn chapter_state_is(chapter: Chapter, run: Option<AnalysisChapterRun>, st: AnalysisChapterState) -> bool {
    &&& st.chapter_id@ == chapter.id@
    &&& st.chapter_num == chapter.chapter_num
    &&& st.title@ == chapter.title@
    &&& match run {
        Some(r) => {
            &&& st.status@ == r.status@
            &&& opt_view(st.run_id) == Some(r.id@)
            &&& st.attempt == Some(r.attempt)
            &&& opt_view(st.prompt_schema_version) == opt_view(r.prompt_schema_version)
            &&& opt_view(st.error_code) == opt_view(r.error_code)
            &&& opt_view(st.error_message) == opt_view(r.error_message)
            &&& opt_view(st.started_at) == opt_view(r.started_at)
            &&& opt_view(st.finished_at) == opt_view(r.finished_at)
            &&& opt_view(st.updated_at) == Some(r.updated_at@)
        },
        None => {
            &&& st.status@ == "pending"@
            &&& st.run_id is None
            &&& st.attempt is None
            &&& st.prompt_schema_version is None
            &&& st.error_code is None
            &&& st.error_message is None
            &&& st.started_at is None
            &&& st.finished_at is None
            &&& st.updated_at is None
        },
    }
}

/// The run that counts for a chapter: the last one listed for it.
pub open spec fn run_of(runs: Seq<AnalysisChapterRun>, chapter: Chapter) -> Option<AnalysisChapterRun> {
    match last_run_for(runs, chapter.id@, runs.len() as int) {
        Some(i) => Some(runs[i]),
        None => None,
    }
}

fn clone_opt(value: &Option<String>) -> (r: Option<String>)
    ensures
        opt_view(r) == opt_view(*value),
{
    match value {
        Some(v) => Some(v.clone()),
        None => None,
    }
}

proof fn lemma_last_run_for(runs: Seq<AnalysisChapterRun>, chapter_id: Seq<char>, n: int)
    ensures
        last_run_for(runs, chapter_id, n) matches Some(i) ==> 0 <= i < n && i < runs.len(),
    decreases n,
{
    if n > 0 && n <= runs.len() && runs[n - 1].chapter_id@ != chapter_id {
        lemma_last_run_for(runs, chapter_id, n - 1);
    }
}

/// The state of one chapter.
pub fn chapter_state(chapter: &Chapter, runs: &Vec<AnalysisChapterRun>) -> (st: AnalysisChapterState)
    ensures
        chapter_state_is(*chapter, run_of(runs@, *chapter), st),
{
    let mut n = runs.len();
    while n > 0 && !crate::text::str_eq(runs[n - 1].chapter_id.as_str(), chapter.id.as_str())
        invariant
            0 <= n <= runs@.len(),
            last_run_for(runs@, chapter.id@, runs@.len() as int) == last_run_for(
                runs@,
                chapter.id@,
                n as int,
            ),
        decreases n,
    {
        n -= 1;
    }
    if n == 0 {
        AnalysisChapterState {
            chapter_id: chapter.id.clone(),
            chapter_num: chapter.chapter_num,
            title: chapter.title.clone(),
            status: owned("pending"),
            run_id: None,
            attempt: None,
            prompt_schema_version: None,
            error_code: None,
            error_message: None,
            started_at: None,
            finished_at: None,
            updated_at: None,
        }
    } else {
        let run = &runs[n - 1];
        AnalysisChapterState {
            chapter_id: chapter.id.clone(),
            chapter_num: chapter.chapter_num,
            title: chapter.title.clone(),
            status: run.status.clone(),
            run_id: Some(run.id.clone()),
            attempt: Some(run.attempt),
            prompt_schema_version: clone_opt(&run.prompt_schema_version),
            error_code: clone_opt(&run.error_code),
            error_message: clone_opt(&run.error_message),
            started_at: clone_opt(&run.started_at),
            finished_at: clone_opt(&run.finished_at),
            updated_at: Some(run.updated_at.clone()),
        }
    }
}

/// How many states have the status.
pub open spec fn status_count(states: Seq<AnalysisChapterState>, status: Seq<char>) -> nat
    decreases states.len(),
{
    if states.len() == 0 {
        0
    } else {
        status_count(states.drop_last(), status) + if states.last().status@ == status {
            1nat
        } else {
            0nat
        }
    }
}

/// The number of the first chapter not completed.
pub open spec fn first_unfinished(states: Seq<AnalysisChapterState>, i: int) -> Option<i64>
    decreases states.len() - i,
{
    if i < 0 || i >= states.len() {
        None
    } else if states[i].status@ != "completed"@ {
        Some(states[i].chapter_num)
    } else {
        first_unfinished(states, i + 1)
    }
}

/// What a run reports about its chapters.
#[derive(Debug)]
pub struct RunProgress {
    pub total_chapters: usize,
    pub completed_chapters: usize,
    pub running_chapters: usize,
    pub failed_chapters: usize,
    pub pending_chapters: usize,
    pub next_chapter_num: Option<i64>,
    pub paused_reason: Option<String>,
    pub chapters: Vec<AnalysisChapterState>,
}

/// The pause reason a snapshot shows: the one given, else the job's error
/// when the job is paused.
pub open spec fn shown_pause_reason(job: AnalysisJob, given: Option<Seq<char>>) -> Option<Seq<char>> {
    match given {
        Some(r) => Some(r),
        None => if job.status@ == "paused"@ {
            opt_view(job.error_message)
        } else {
            None
        },
    }
}

fn count_status(states: &Vec<AnalysisChapterState>, status: &str) -> (r: usize)
    ensures
        r == status_count(states@, status@),
{
    let mut count: usize = 0;
    let mut i: usize = 0;
    while i < states.len()
        invariant
            0 <= i <= states@.len(),
            count == status_count(states@.take(i as int), status@),
            count <= i,
        decreases states@.len() - i,
    {
        proof {
            assert(states@.take(i + 1).drop_last() =~= states@.take(i as int));
        }
        if crate::text::str_eq(states[i].status.as_str(), status) {
            count += 1;
        }
        i += 1;
    }
    proof {
        assert(states@.take(states@.len() as int) =~= states@);
    }
    count
}

fn first_unfinished_num(states: &Vec<AnalysisChapterState>) -> (r: Option<i64>)
    ensures
        r == first_unfinished(states@, 0),
{
    let mut j: usize = 0;
    while j < states.len()
        invariant
            0 <= j <= states@.len(),
            first_unfinished(states@, 0) == first_unfinished(states@, j as int),
        decreases states@.len() - j,
    {
        if !crate::text::str_eq(states[j].status.as_str(), "completed") {
            return Some(states[j].chapter_num);
        }
        j += 1;
    }
    None
}

/// The progress of a run over its chapters (the computing part of
/// `build_run_snapshot`).
pub fn run_progress(
    job: &AnalysisJob,
    chapters: &Vec<Chapter>,
    runs: &Vec<AnalysisChapterRun>,
    paused_reason: Option<String>,
) -> (r: RunProgress)
    ensures
        r.chapters@.len() == chapters@.len(),
        forall|i: int|
            0 <= i < chapters@.len() ==> chapter_state_is(
                chapters@[i],
                run_of(runs@, chapters@[i]),
                #[trigger] r.chapters@[i],
            ),
        r.total_chapters == chapters@.len(),
        r.completed_chapters == status_count(r.chapters@, "completed"@),
        r.running_chapters == status_count(r.chapters@, "running"@),
        r.failed_chapters == status_count(r.chapters@, "failed"@),
        r.pending_chapters == status_count(r.chapters@, "pending"@),
        r.next_chapter_num == first_unfinished(r.chapters@, 0),
        opt_view(r.paused_reason) == shown_pause_reason(*job, opt_view(paused_reason)),
{
    let mut states: Vec<AnalysisChapterState> = Vec::new();
    let mut i: usize = 0;
    while i < chapters.len()
        invariant
            0 <= i <= chapters@.len(),
            states@.len() == i,
            forall|k: int|
                0 <= k < i ==> chapter_state_is(
                    chapters@[k],
                    run_of(runs@, chapters@[k]),
                    #[trigger] states@[k],
                ),
        decreases chapters@.len() - i,
    {
        let st = chapter_state(&chapters[i], runs);
        states.push(st);
        i += 1;
    }
    let completed_chapters = count_status(&states, "completed");
    let running_chapters = count_status(&states, "running");
    let failed_chapters = count_status(&states, "failed");
    let pending_chapters = count_status(&states, "pending");
    let next_chapter_num = first_unfinished_num(&states);
    let shown = match paused_reason {
        Some(reason) => Some(reason),
        None => if crate::text::str_eq(job.status.as_str(), "paused") {
            clone_opt(&job.error_message)
        } else {
            None
        },
    };
    RunProgress {
        total_chapters: chapters.len(),
        completed_chapters,
        running_chapters,
        failed_chapters,
        pending_chapters,
        next_chapter_num,
        paused_reason: shown,
        chapters: states,
    }
}

} // verus!
