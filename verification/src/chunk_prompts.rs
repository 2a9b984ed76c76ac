//! The texts that frame each pass over one chunk of a chapter: where the
//! chunk stands in the chapter, what earlier passes and chapters found, and
//! why a pass failed.
use vstd::prelude::*;
use crate::text::{nat_digits, owned, push_str, u64_to_string};

verus! {

pub const CHUNK_INTRO: &'static str = "\n\n\u{110}\u{e2}y l\u{e0} \u{111}o\u{1ea1}n nh\u{1ecf} ";

pub const CHUNK_RULES: &'static str = " c\u{1ee7}a ch\u{1b0}\u{1a1}ng hi\u{1ec7}n t\u{1ea1}i. M\u{1ed7}i pass ch\u{1ec9} x\u{1eed} l\u{fd} d\u{1eef} li\u{1ec7}u c\u{f3} trong \u{111}o\u{1ea1}n n\u{e0}y. Offset mention ph\u{1ea3}i t\u{ed}nh t\u{1eeb} CHAPTER_TEXT c\u{1ee7}a \u{111}o\u{1ea1}n n\u{e0}y; backend s\u{1ebd} t\u{1ef1} quy \u{111}\u{1ed5}i v\u{1ec1} to\u{e0}n ch\u{1b0}\u{1a1}ng.";

pub const KNOWN_SURFACES_INTRO: &'static str = "\n\nKnown character/alias surfaces already present in this chunk from previous chapters:\n";

pub const KNOWN_SURFACES_RULE: &'static str = "\n\nN\u{1ebf}u m\u{1ed9}t known surface xu\u{1ea5}t hi\u{1ec7}n trong CHAPTER_TEXT, \u{1b0}u ti\u{ea}n gi\u{1eef} node canonical \u{111}\u{e3} bi\u{1ebf}t thay v\u{ec} t\u{1ea1}o node m\u{1edb}i cho c\u{f9}ng ng\u{1b0}\u{1edd}i.";

pub const CANDIDATE_CHECKLIST_INTRO: &'static str = "\n\nCandidate coverage checklist t\u{1eeb} pass qu\u{e9}t nhanh tr\u{1b0}\u{1edb}c identity:\n";

pub const CANDIDATE_CHECKLIST_RULE: &'static str = "\n\nIdentity pass ph\u{1ea3}i d\u{f9}ng checklist n\u{e0}y \u{111}\u{1ec3} tr\u{e1}nh s\u{f3}t t\u{ea}n/alias c\u{f3} evidence trong \u{111}o\u{1ea1}n, nh\u{1b0}ng v\u{1eab}n ch\u{1ec9} ghi nh\u{e2}n v\u{1ead}t/alias khi CHAPTER_TEXT hi\u{1ec7}n t\u{1ea1}i h\u{1ed7} tr\u{1ee3}.";

pub const OWNERSHIP_INTRO: &'static str = "\n\nIdentity/Candidate pass \u{111}\u{e3} t\u{1ea1}o danh s\u{e1}ch node nh\u{e2}n v\u{1ead}t b\u{ea}n d\u{1b0}\u{1edb}i. Alias Ownership pass l\u{e0} b\u{1b0}\u{1edb}c duy nh\u{1ea5}t \u{111}\u{1b0}\u{1ee3}c nh\u{1ead}p surface alias/coreference v\u{e0}o owner tr\u{1b0}\u{1edb}c khi resolver xuy\u{ea}n ch\u{1b0}\u{1a1}ng ch\u{1ea1}y.\n\nQuoted surface checklist do backend ch\u{1ec9} qu\u{e9}t h\u{ec}nh th\u{1ee9}c ngo\u{1eb7}c k\u{e9}p, kh\u{f4}ng t\u{1ef1} k\u{1ebf}t lu\u{1ead}n owner:\n";

pub const OWNERSHIP_RULE: &'static str = "\n\nD\u{f9}ng checklist n\u{e0}y \u{111}\u{1ec3} x\u{e9}t k\u{1ef9} c\u{e1}c surface trong ngo\u{1eb7}c k\u{e9}p, nh\u{1b0}ng ch\u{1ec9} tr\u{1ea3} alias ownership khi CHAPTER_TEXT ch\u{1ee9}ng minh b\u{1eb1}ng ng\u{1eef} ph\u{e1}p/ng\u{1eef} ngh\u{129}a.";

pub const TARGET_CONTEXTS_INTRO: &'static str = "\n\n\u{110}\u{e2}y l\u{e0} TARGET_CONTEXTS \u{111}\u{e3} \u{111}\u{1b0}\u{1ee3}c backend ch\u{1ecd}n t\u{1eeb} \u{111}o\u{1ea1}n nh\u{1ecf} ";

pub const TARGET_CONTEXTS_RULES: &'static str = " c\u{1ee7}a ch\u{1b0}\u{1a1}ng hi\u{1ec7}n t\u{1ea1}i. C\u{e1}c occurrence c\u{1ee7}a target \u{111}\u{1b0}\u{1ee3}c \u{111}\u{e1}nh d\u{1ea5}u b\u{1eb1}ng [[...]]. Fields pass ch\u{1ec9} \u{111}\u{1b0}\u{1ee3}c d\u{f9}ng c\u{e1}c context n\u{e0}y, kh\u{f4}ng d\u{f9}ng to\u{e0}n chunk.";

/// Where a chunk stands in its chapter: its number, from one, and how many
/// chunks there are.
pub open spec fn chunk_position(index: int, total: int) -> Seq<char> {
    nat_digits((index + 1) as nat) + "/"@ + nat_digits(total as nat)
}

fn push_chunk_position(out: &mut String, index: usize, total: usize)
    requires
        index < usize::MAX,
    ensures
        final(out)@ == old(out)@ + chunk_position(index as int, total as int),
{
    push_str(out, u64_to_string((index + 1) as u64).as_str());
    push_str(out, "/");
    push_str(out, u64_to_string(total as u64).as_str());
}

/// The context every pass over a chunk starts from: the novel's context and
/// where the chunk stands.
pub open spec fn chunk_base_context(novel_context: Seq<char>, index: int, total: int) -> Seq<char> {
    novel_context + CHUNK_INTRO@ + chunk_position(index, total) + CHUNK_RULES@
}

pub fn build_chunk_base_context(novel_context: &str, index: usize, total: usize) -> (r: String)
    requires
        index < usize::MAX,
    ensures
        r@ == chunk_base_context(novel_context@, index as int, total as int),
{
    let mut out = owned(novel_context);
    push_str(&mut out, CHUNK_INTRO);
    push_chunk_position(&mut out, index, total);
    push_str(&mut out, CHUNK_RULES);
    out
}

/// The context of the candidate pass: the known surfaces of earlier chapters
/// found in the chunk.
pub fn build_candidate_pass_context(base: &str, known_alias_context: &str) -> (r: String)
    ensures
        r@ == base@ + KNOWN_SURFACES_INTRO@ + known_alias_context@ + KNOWN_SURFACES_RULE@,
{
    let mut out = owned(base);
    push_str(&mut out, KNOWN_SURFACES_INTRO);
    push_str(&mut out, known_alias_context);
    push_str(&mut out, KNOWN_SURFACES_RULE);
    out
}

/// The context of the identity pass: the known surfaces and the candidates
/// the quick pass found.
pub fn build_identity_pass_context(base: &str, known_alias_context: &str, candidate_context: &str) -> (r: String)
    ensures
        r@ == base@ + KNOWN_SURFACES_INTRO@ + known_alias_context@ + CANDIDATE_CHECKLIST_INTRO@
            + candidate_context@ + CANDIDATE_CHECKLIST_RULE@,
{
    let mut out = owned(base);
    push_str(&mut out, KNOWN_SURFACES_INTRO);
    push_str(&mut out, known_alias_context);
    push_str(&mut out, CANDIDATE_CHECKLIST_INTRO);
    push_str(&mut out, candidate_context);
    push_str(&mut out, CANDIDATE_CHECKLIST_RULE);
    out
}

/// The context of the alias ownership pass: the quoted surfaces found in the
/// chunk.
pub fn build_alias_ownership_context(base: &str, quoted_alias_context: &str) -> (r: String)
    ensures
        r@ == base@ + OWNERSHIP_INTRO@ + quoted_alias_context@ + OWNERSHIP_RULE@,
{
    let mut out = owned(base);
    push_str(&mut out, OWNERSHIP_INTRO);
    push_str(&mut out, quoted_alias_context);
    push_str(&mut out, OWNERSHIP_RULE);
    out
}

/// The context of the fields pass: the target contexts chosen from the chunk.
pub fn build_target_contexts_context(novel_context: &str, index: usize, total: usize) -> (r: String)
    requires
        index < usize::MAX,
    ensures
        r@ == novel_context@ + TARGET_CONTEXTS_INTRO@ + chunk_position(index as int, total as int)
            + TARGET_CONTEXTS_RULES@,
{
    let mut out = owned(novel_context);
    push_str(&mut out, TARGET_CONTEXTS_INTRO);
    push_chunk_position(&mut out, index, total);
    push_str(&mut out, TARGET_CONTEXTS_RULES);
    out
}

/// Why a chapter pauses when a pass over one of its chunks fails: the pass,
/// where the chunk stands, the character when the pass was about one, and
/// the error.
pub open spec fn chunk_failure(
    pass: Seq<char>,
    index: int,
    total: int,
    character: Option<Seq<char>>,
    message: Seq<char>,
) -> Seq<char> {
    "character "@ + pass + " chunk "@ + chunk_position(index, total) + match character {
        Some(name) => " for "@ + name,
        None => seq![],
    } + " failed: "@ + message
}

pub fn chunk_failure_reason(
    pass: &str,
    index: usize,
    total: usize,
    character: Option<&str>,
    message: &str,
) -> (r: String)
    requires
        index < usize::MAX,
    ensures
        r@ == chunk_failure(
            pass@,
            index as int,
            total as int,
            match character {
                Some(name) => Some(name@),
                None => None,
            },
            message@,
        ),
{
    let mut out = owned("character ");
    push_str(&mut out, pass);
    push_str(&mut out, " chunk ");
    push_chunk_position(&mut out, index, total);
    match character {
        Some(name) => {
            push_str(&mut out, " for ");
            push_str(&mut out, name);
        },
        None => {
            assert(out@ + Seq::<char>::empty() =~= out@);
        },
    }
    push_str(&mut out, " failed: ");
    push_str(&mut out, message);
    out
}

/// Why a chapter pauses when its relationship pass fails.
pub fn relationship_pass_failure_reason(message: &str) -> (r: String)
    ensures
        r@ == "character relationship pass failed: "@ + message@,
{
    let mut out = owned("character relationship pass failed: ");
    push_str(&mut out, message);
    out
}

/// Why a chapter pauses when its merged records fail their checks.
pub fn merged_validation_failure_reason(message: &str) -> (r: String)
    ensures
        r@ == "character extraction merged result failed validation: "@ + message@,
{
    let mut out = owned("character extraction merged result failed validation: ");
    push_str(&mut out, message);
    out
}

} // verus!
