//! The metadata of a novel: the source language guessed when it is left to
//! detection, and a model's suggestion merged over what the novel has.
use vstd::prelude::*;
use crate::domain::{Chapter, Novel, NovelImportInput, NovelMetadataUpdateInput};
use crate::errors::ApiError;
use crate::import::{detect_basic_source_language, guessed_language};
use crate::text::{opt_view, optional_trimmed, owned, push_str, str_eq, str_is_blank, trim, trim_str, trimmed_nonempty};

verus! {

/// A model's suggestion for a novel's metadata. (Its confidence is the
/// caller's to keep.)
#[derive(Debug, Clone)]
pub struct NovelMetadataSuggestion {
    pub title: Option<String>,
    pub author: Option<String>,
    pub source_language: Option<String>,
    pub genre: Option<String>,
    pub description: Option<String>,
}

/// A suggestion as the specifications see it.
pub type SuggestionView = (
    Option<Seq<char>>,
    Option<Seq<char>>,
    Option<Seq<char>>,
    Option<Seq<char>>,
    Option<Seq<char>>,
);

pub open spec fn suggestion_view(s: NovelMetadataSuggestion) -> SuggestionView {
    (
        opt_view(s.title),
        opt_view(s.author),
        opt_view(s.source_language),
        opt_view(s.genre),
        opt_view(s.description),
    )
}

/// The text trimmed, when something is left.
pub fn optional_metadata_text(value: Option<String>) -> (r: Option<String>)
    ensures
        opt_view(r) == trimmed_nonempty(opt_view(value)),
{
    optional_trimmed(&value)
}

/// A suggestion with every text trimmed or dropped, and an `auto` language dropped.
pub open spec fn normalized_suggestion(s: SuggestionView) -> SuggestionView {
    (
        trimmed_nonempty(s.0),
        trimmed_nonempty(s.1),
        match trimmed_nonempty(s.2) {
            Some(l) => if l == "auto"@ {
                None
            } else {
                Some(l)
            },
            None => None,
        },
        trimmed_nonempty(s.3),
        trimmed_nonempty(s.4),
    )
}

pub fn normalize_novel_metadata_suggestion(suggestion: NovelMetadataSuggestion) -> (r: NovelMetadataSuggestion)
    ensures
        suggestion_view(r) == normalized_suggestion(suggestion_view(suggestion)),
{
    let language = match optional_metadata_text(suggestion.source_language) {
        Some(l) => if str_eq(l.as_str(), "auto") {
            None
        } else {
            Some(l)
        },
        None => None,
    };
    NovelMetadataSuggestion {
        title: optional_metadata_text(suggestion.title),
        author: optional_metadata_text(suggestion.author),
        source_language: language,
        genre: optional_metadata_text(suggestion.genre),
        description: optional_metadata_text(suggestion.description),
    }
}

pub open spec fn or_else(a: Option<Seq<char>>, b: Option<Seq<char>>) -> Option<Seq<char>> {
    match a {
        Some(v) => Some(v),
        None => b,
    }
}

fn or_existing(suggested: Option<String>, existing: &Option<String>) -> (r: Option<String>)
    ensures
        opt_view(r) == or_else(opt_view(suggested), opt_view(*existing)),
{
    match suggested {
        Some(v) => Some(v),
        None => match existing {
            Some(e) => Some(e.clone()),
            None => None,
        },
    }
}

/// The update a suggestion makes: each suggested text, else the novel's own.
pub fn merge_novel_metadata_suggestion(novel: &Novel, suggestion: NovelMetadataSuggestion) -> (r:
    NovelMetadataUpdateInput)
    ensures
        opt_view(r.title) == or_else(opt_view(suggestion.title), Some(novel.title@)),
        opt_view(r.author) == or_else(opt_view(suggestion.author), opt_view(novel.author)),
        opt_view(r.source_language) == or_else(
            opt_view(suggestion.source_language),
            opt_view(novel.source_language),
        ),
        opt_view(r.genre) == or_else(opt_view(suggestion.genre), opt_view(novel.genre)),
        opt_view(r.description) == or_else(opt_view(suggestion.description), opt_view(novel.description)),
{
    NovelMetadataUpdateInput {
        title: match suggestion.title {
            Some(t) => Some(t),
            None => Some(novel.title.clone()),
        },
        author: or_existing(suggestion.author, &novel.author),
        source_language: or_existing(suggestion.source_language, &novel.source_language),
        genre: or_existing(suggestion.genre, &novel.genre),
        description: or_existing(suggestion.description, &novel.description),
    }
}

/// A language is left to detection when it is missing, blank or `auto`.
pub open spec fn language_is_auto(language: Option<Seq<char>>) -> bool {
    match language {
        Some(l) => trim(l).len() == 0 || trim(l) == "auto"@,
        None => true,
    }
}

pub fn source_language_is_auto(language: &Option<String>) -> (r: bool)
    ensures
        r == language_is_auto(opt_view(*language)),
{
    match language {
        Some(l) => {
            let t = trim_str(l.as_str());
            t.as_str().is_empty() || str_eq(t.as_str(), "auto")
        },
        None => true,
    }
}

/// The chapters' texts joined by blank lines.
pub open spec fn joined_text(chapters: Seq<Chapter>) -> Seq<char>
    decreases chapters.len(),
{
    if chapters.len() == 0 {
        seq![]
    } else if chapters.len() == 1 {
        chapters[0].content@
    } else {
        joined_text(chapters.drop_last()) + "\n\n"@ + chapters.last().content@
    }
}

pub fn join_chapter_text(chapters: &Vec<Chapter>) -> (r: String)
    ensures
        r@ == joined_text(chapters@),
{
    let mut text = String::new();
    let mut i: usize = 0;
    proof {
        assert(chapters@.take(0) =~= Seq::<Chapter>::empty());
        assert(text@ =~= Seq::<char>::empty());
    }
    while i < chapters.len()
        invariant
            0 <= i <= chapters@.len(),
            text@ == joined_text(chapters@.take(i as int)),
        decreases chapters@.len() - i,
    {
        proof {
            assert(chapters@.take(i + 1).drop_last() =~= chapters@.take(i as int));
            assert(chapters@.take(i + 1).last() == chapters@[i as int]);
            if i == 0 {
                assert(chapters@.take(1)[0] == chapters@[0]);
            }
        }
        if i > 0 {
            push_str(&mut text, "\n\n");
        } else {
            proof {
                assert(text@ + chapters@[0].content@ =~= chapters@[0].content@);
            }
        }
        push_str(&mut text, chapters[i].content.as_str());
        i += 1;
    }
    proof {
        assert(chapters@.take(i as int) =~= chapters@);
    }
    text
}

/// A language left to detection is guessed
/// from the chapters' text.
pub fn fill_source_language_if_auto(input: &mut NovelMetadataUpdateInput, chapters: &Vec<Chapter>)
    ensures
        final(input).title == old(input).title,
        final(input).author == old(input).author,
        final(input).genre == old(input).genre,
        final(input).description == old(input).description,
        opt_view(final(input).source_language) == if language_is_auto(opt_view(old(input).source_language)) {
            guessed_language(joined_text(chapters@))
        } else {
            opt_view(old(input).source_language)
        },
{
    if !source_language_is_auto(&input.source_language) {
        return ;
    }
    let text = join_chapter_text(chapters);
    input.source_language = detect_basic_source_language(text.as_str());
}

pub const MSG_NOVEL_TEXT_REQUIRED: &'static str = "novel text is required";

/// The input of a metadata suggestion for a stored novel: its metadata and
/// its chapters' text, which must not be blank.
pub fn novel_metadata_input(novel: &Novel, chapters: &Vec<Chapter>) -> (r: Result<NovelImportInput, ApiError>)
    ensures
        match r {
            Ok(input) => trim(joined_text(chapters@)).len() > 0 && input.text@ == joined_text(chapters@)
                && input.title == novel.title && input.author == novel.author && input.source_language
                == novel.source_language && input.genre == novel.genre && input.description
                == novel.description,
            Err(e) => trim(joined_text(chapters@)).len() == 0 && e.status == 400 && e.message@
                == MSG_NOVEL_TEXT_REQUIRED@,
        },
{
    let text = join_chapter_text(chapters);
    if str_is_blank(text.as_str()) {
        return Err(ApiError::bad_request(owned(MSG_NOVEL_TEXT_REQUIRED)));
    }
    Ok(
        NovelImportInput {
            title: novel.title.clone(),
            author: clone_text(&novel.author),
            source_language: clone_text(&novel.source_language),
            genre: clone_text(&novel.genre),
            description: clone_text(&novel.description),
            text,
        },
    )
}

fn clone_text(value: &Option<String>) -> (r: Option<String>)
    ensures
        r == *value,
{
    match value {
        Some(v) => Some(v.clone()),
        None => None,
    }
}

/// The input a suggestion is asked with: a language left to detection is
/// guessed from the text.
pub fn prepare_metadata_suggestion_input(input: NovelImportInput) -> (r: NovelImportInput)
    ensures
        r.title == input.title,
        r.author == input.author,
        r.genre == input.genre,
        r.description == input.description,
        r.text == input.text,
        opt_view(r.source_language) == if language_is_auto(opt_view(input.source_language)) {
            guessed_language(input.text@)
        } else {
            opt_view(input.source_language)
        },
{
    let mut input = input;
    if source_language_is_auto(&input.source_language) {
        input.source_language = detect_basic_source_language(input.text.as_str());
    }
    input
}

/// The suggestion kept from a model's answers: the first (or an empty one),
/// with the input's language when it names none, normalized.
pub open spec fn kept_suggestion(answers: Seq<SuggestionView>, input_language: Option<Seq<char>>) -> SuggestionView {
    let first = if answers.len() > 0 {
        answers[0]
    } else {
        (None, None, None, None, None)
    };
    let language = match first.2 {
        Some(l) => if l.len() == 0 {
            input_language
        } else {
            Some(l)
        },
        None => input_language,
    };
    normalized_suggestion((first.0, first.1, language, first.3, first.4))
}

pub fn finish_metadata_suggestion(answers: Vec<NovelMetadataSuggestion>, input_language: Option<String>) -> (r:
    NovelMetadataSuggestion)
    ensures
        suggestion_view(r) == kept_suggestion(
            answers@.map_values(|s: NovelMetadataSuggestion| suggestion_view(s)),
            opt_view(input_language),
        ),
{
    let ghost av = answers@.map_values(|s: NovelMetadataSuggestion| suggestion_view(s));
    let mut answers = answers;
    let mut suggestion = if answers.len() > 0 {
        proof {
            assert(av[0] == suggestion_view(answers@[0]));
        }
        answers.remove(0)
    } else {
        NovelMetadataSuggestion {
            title: None,
            author: None,
            source_language: None,
            genre: None,
            description: None,
        }
    };
    let missing = match &suggestion.source_language {
        Some(l) => l.as_str().is_empty(),
        None => true,
    };
    if missing {
        suggestion.source_language = input_language;
    }
    normalize_novel_metadata_suggestion(suggestion)
}

} // verus!
