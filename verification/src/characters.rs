//! Character identities and their aliases as the analysis passes collect
//! them: alias types and labels, which aliases are kept, and the surfaces an
//! identity is searched by.
use vstd::prelude::*;
use crate::domain::{clone_evidence, StoryEvidenceSpan};
use crate::keys::{
    normalize_ascii_snake_key, normalized_folded_text_key, normalized_text_key, snake_key,
    text_key,
};
use crate::surfaces::{
    clean_character_surface, clean_surface, character_surface_has_uppercase_token,
    has_uppercase_word, is_stable_character_alias_surface, is_stable_surface, quoted_ranges,
    quoted_spans_from, range_views,
};
use crate::text::{
    chars_of, contains_chars, contains_seq, opt_view, owned, str_eq, trim, trim_str,
};

verus! {

/// An alias of a character, with the evidence it was read from.
#[derive(Debug, Clone)]
pub struct CharacterAlias {
    pub text: String,
    pub alias_type: String,
    pub alias_label: String,
    pub is_primary: bool,
    pub evidence: Vec<StoryEvidenceSpan>,
}

/// A character as a pass names it, with its aliases.
#[derive(Debug, Clone)]
pub struct CharacterIdentity {
    pub name: String,
    pub aliases: Vec<CharacterAlias>,
}

/// A possible character from the quick candidate pass.
#[derive(Debug, Clone)]
pub struct CharacterCandidate {
    pub surface_text: String,
    pub display_name: String,
    pub kind: String,
    pub role_label: String,
    pub aliases: Vec<CharacterAlias>,
    pub evidence: Vec<StoryEvidenceSpan>,
}

// ------------------------------------------------------------------------
// Alias types and labels.
// ------------------------------------------------------------------------
/// The alias type a snake_case key stands for.
pub open spec fn alias_type_for_key(key: Seq<char>) -> Seq<char> {
    if key == "nickname"@ || key == "biet_danh"@ || key == "stable_nickname"@ {
        "nickname"@
    } else if key == "title_or_role"@ || key == "title"@ || key == "role"@ || key == "danh_xung"@
        || key == "chuc_vu"@ || key == "vai_tro"@ {
        "title_or_role"@
    } else if key == "relationship_name"@ || key == "relationship"@ || key == "relation"@ || key
        == "family_relation"@ {
        "relationship_name"@
    } else if key == "pronoun"@ || key == "personal_pronoun"@ || key == "dai_tu"@ || key
        == "dai_tu_nhan_xung"@ || key == "temporary_reference"@ || key == "grammatical_reference"@
        || key == "descriptive_phrase"@ || key == "event_phrase"@ || key == "group_reference"@
        || key == "possessive_phrase"@ || key == "generic_reference"@ || key
        == "unstable_reference"@ {
        "unstable_reference"@
    } else {
        "other_alias"@
    }
}

/// The alias type of a free-form label.
pub open spec fn alias_type_of(value: Seq<char>) -> Seq<char> {
    alias_type_for_key(snake_key(value))
}

fn key_is_one_of(key: &str, options: &[&str]) -> (r: bool)
    ensures
        r == exists|i: int| 0 <= i < options@.len() && key@ == #[trigger] options@[i]@,
{
    let mut i: usize = 0;
    while i < options.len()
        invariant
            0 <= i <= options@.len(),
            forall|k: int| 0 <= k < i ==> key@ != #[trigger] options@[k]@,
        decreases options@.len() - i,
    {
        if str_eq(key, options[i]) {
            return true;
        }
        i += 1;
    }
    false
}

pub fn normalize_character_alias_type(value: &str) -> (r: String)
    ensures
        r@ == alias_type_of(value@),
{
    let key = normalize_ascii_snake_key(value);
    let k = key.as_str();
    let nickname = ["nickname", "biet_danh", "stable_nickname"];
    let title = ["title_or_role", "title", "role", "danh_xung", "chuc_vu", "vai_tro"];
    let relation = ["relationship_name", "relationship", "relation", "family_relation"];
    let unstable = [
        "pronoun",
        "personal_pronoun",
        "dai_tu",
        "dai_tu_nhan_xung",
        "temporary_reference",
        "grammatical_reference",
        "descriptive_phrase",
        "event_phrase",
        "group_reference",
        "possessive_phrase",
        "generic_reference",
        "unstable_reference",
    ];
    if key_is_one_of(k, &nickname) {
        owned("nickname")
    } else if key_is_one_of(k, &title) {
        owned("title_or_role")
    } else if key_is_one_of(k, &relation) {
        owned("relationship_name")
    } else if key_is_one_of(k, &unstable) {
        owned("unstable_reference")
    } else {
        owned("other_alias")
    }
}

/// Only nicknames and other names are kept as aliases.
pub open spec fn is_persistable_alias_type(alias_type: Seq<char>) -> bool {
    alias_type_of(alias_type) == "nickname"@ || alias_type_of(alias_type) == "other_alias"@
}

pub fn is_persistable_character_alias_type(alias_type: &str) -> (r: bool)
    ensures
        r == is_persistable_alias_type(alias_type@),
{
    let t = normalize_character_alias_type(alias_type);
    str_eq(t.as_str(), "nickname") || str_eq(t.as_str(), "other_alias")
}

/// The label an alias shows: its own, trimmed, else one for its type.
pub open spec fn alias_label_of(alias_type: Seq<char>, label: Seq<char>) -> Seq<char> {
    if trim(label).len() > 0 {
        trim(label)
    } else {
        let t = alias_type_of(alias_type);
        if t == "nickname"@ {
            "Biệt danh"@
        } else if t == "title_or_role"@ {
            "Danh xưng"@
        } else if t == "unstable_reference"@ {
            "Tham chiếu tạm thời"@
        } else {
            "Tên gọi khác"@
        }
    }
}

pub fn normalize_character_alias_label(alias_type: &str, label: &str) -> (r: String)
    ensures
        r@ == alias_label_of(alias_type@, label@),
{
    let trimmed = trim_str(label);
    if !trimmed.as_str().is_empty() {
        return trimmed;
    }
    let t = normalize_character_alias_type(alias_type);
    if str_eq(t.as_str(), "nickname") {
        owned("Biệt danh")
    } else if str_eq(t.as_str(), "title_or_role") {
        owned("Danh xưng")
    } else if str_eq(t.as_str(), "unstable_reference") {
        owned("Tham chiếu tạm thời")
    } else {
        owned("Tên gọi khác")
    }
}

/// The candidate kinds that stand for a character.
pub open spec fn candidate_kind_allowed(kind: Seq<char>) -> bool {
    let key = snake_key(kind);
    key.len() == 0 || key == "person"@ || key == "character"@ || key == "nhan_vat"@ || key
        == "nhanvat"@
}

pub fn character_candidate_kind_is_allowed(kind: &str) -> (r: bool)
    ensures
        r == candidate_kind_allowed(kind@),
{
    let key = normalize_ascii_snake_key(kind);
    let options = ["person", "character", "nhan_vat", "nhanvat"];
    key.as_str().is_empty() || key_is_one_of(key.as_str(), &options)
}

// ------------------------------------------------------------------------
// Surface containment.
// ------------------------------------------------------------------------
/// The folded key of `longer` properly contains that of `shorter`.
pub open spec fn surface_contains_other(longer: Seq<char>, shorter: Seq<char>) -> bool {
    let l = text_key(longer, true);
    let s = text_key(shorter, true);
    l.len() > 0 && s.len() > 0 && l != s && contains_seq(l, s)
}

pub fn character_surface_key_contains_other_surface(longer: &str, shorter: &str) -> (r: bool)
    ensures
        r == surface_contains_other(longer@, shorter@),
{
    let l = normalized_folded_text_key(longer);
    let s = normalized_folded_text_key(shorter);
    let lc = chars_of(l.as_str());
    let sc = chars_of(s.as_str());
    !lc.is_empty() && !sc.is_empty() && !crate::text::chars_eq(&lc, &sc) && contains_chars(&lc, &sc)
}

/// The folded key of an alias contains that of the canonical name.
pub open spec fn alias_contains_canonical(alias_text: Seq<char>, canonical: Seq<char>) -> bool {
    let a = text_key(alias_text, true);
    let c = text_key(canonical, true);
    a.len() > 0 && c.len() > 0 && contains_seq(a, c)
}

pub fn character_alias_surface_contains_canonical_name(alias_text: &str, canonical_name: &str) -> (r: bool)
    ensures
        r == alias_contains_canonical(alias_text@, canonical_name@),
{
    let a = chars_of(normalized_folded_text_key(alias_text).as_str());
    let c = chars_of(normalized_folded_text_key(canonical_name).as_str());
    !a.is_empty() && !c.is_empty() && contains_chars(&a, &c)
}

// ------------------------------------------------------------------------
// Which aliases are kept.
// ------------------------------------------------------------------------
/// Some evidence quote has a quoted surface whose cleaned key is the alias's.
pub open spec fn has_quoted_evidence(evidence: Seq<StoryEvidenceSpan>, alias_text: Seq<char>) -> bool {
    let key = text_key(alias_text, false);
    key.len() > 0 && exists|i: int, k: int|
        0 <= i < evidence.len() && 0 <= k < evidence_spans(evidence[i]).len() && text_key(
            clean_surface(#[trigger] evidence_spans(evidence[i])[k].2),
            false,
        ) == key
}

/// The stable quoted surfaces of an evidence quote.
pub open spec fn evidence_spans(e: StoryEvidenceSpan) -> Seq<(int, int, Seq<char>)> {
    match e.quote {
        Some(q) => quoted_spans_from(q@, 0),
        None => seq![],
    }
}

fn quote_has_surface_key(quote: &str, key: &String) -> (r: bool)
    ensures
        r == exists|k: int|
            0 <= k < quoted_spans_from(quote@, 0).len() && text_key(
                clean_surface(#[trigger] quoted_spans_from(quote@, 0)[k].2),
                false,
            ) == key@,
{
    let ranges = quoted_ranges(&chars_of(quote));
    let ghost all = range_views(ranges@);
    let mut i: usize = 0;
    while i < ranges.len()
        invariant
            all == range_views(ranges@),
            all == quoted_spans_from(quote@, 0),
            0 <= i <= ranges@.len(),
            forall|k: int|
                0 <= k < i ==> text_key(clean_surface(#[trigger] all[k].2), false) != key@,
        decreases ranges@.len() - i,
    {
        let cleaned = clean_character_surface(ranges[i].2.as_str());
        let span_key = normalized_text_key(cleaned.as_str());
        proof {
            assert(all[i as int].2 == ranges@[i as int].2@);
        }
        if str_eq(span_key.as_str(), key.as_str()) {
            return true;
        }
        i += 1;
    }
    false
}

/// Whether some evidence quote of an alias holds the alias in quotation
/// marks.
pub fn alias_has_direct_quoted_evidence(alias: &CharacterAlias, alias_text: &str) -> (r: bool)
    ensures
        r == has_quoted_evidence(alias.evidence@, alias_text@),
{
    let key = normalized_text_key(alias_text);
    if key.as_str().is_empty() {
        return false;
    }
    let mut i: usize = 0;
    while i < alias.evidence.len()
        invariant
            key@ == text_key(alias_text@, false),
            key@.len() > 0,
            0 <= i <= alias.evidence@.len(),
            forall|j: int, k: int|
                0 <= j < i && 0 <= k < evidence_spans(alias.evidence@[j]).len() ==> text_key(
                    clean_surface(#[trigger] evidence_spans(alias.evidence@[j])[k].2),
                    false,
                ) != key@,
        decreases alias.evidence@.len() - i,
    {
        match &alias.evidence[i].quote {
            Some(q) => {
                if quote_has_surface_key(q.as_str(), &key) {
                    proof {
                        let e = alias.evidence@[i as int];
                        assert(evidence_spans(e) == quoted_spans_from(q@, 0));
                        let k = choose|k: int|
                            0 <= k < quoted_spans_from(q@, 0).len() && text_key(
                                clean_surface(#[trigger] quoted_spans_from(q@, 0)[k].2),
                                false,
                            ) == key@;
                        assert(text_key(clean_surface(evidence_spans(e)[k].2), false) == key@);
                    }
                    return true;
                }
            },
            None => {},
        }
        i += 1;
    }
    false
}

/// An alias is kept for a character when its cleaned text is a stable
/// surface other than the character's name and not containing it, its type is
/// a nickname or other name, and it is capitalised or quoted in its evidence.
pub open spec fn alias_accepted(alias: CharacterAlias, canonical_name: Seq<char>) -> bool {
    let raw = trim(alias.text@);
    let text = clean_surface(alias.text@);
    &&& text.len() > 0
    &&& text_key(text, false) != text_key(canonical_name, false)
    &&& is_stable_surface(raw, text)
    &&& is_persistable_alias_type(alias_type_of(alias.alias_type@))
    &&& !alias_contains_canonical(text, canonical_name)
    &&& (has_uppercase_word(text) || has_quoted_evidence(alias.evidence@, text))
}

/// The first alias in `aliases` from `i` on whose text has the key `key`.
pub open spec fn find_alias_key(aliases: Seq<CharacterAlias>, key: Seq<char>, i: int) -> Option<int>
    decreases aliases.len() - i,
{
    if i < 0 || i >= aliases.len() {
        None
    } else if text_key(aliases[i].text@, false) == key {
        Some(i)
    } else {
        find_alias_key(aliases, key, i + 1)
    }
}

/// The aliases after offering `alias`: unchanged if it is not kept; else an
/// alias with the same key takes its evidence (when it had none) and its
/// primary flag; else it is appended, cleaned, with its type and label normalized.
pub open spec fn aliases_after_push(
    aliases: Seq<CharacterAlias>,
    alias: CharacterAlias,
    canonical_name: Seq<char>,
    result: Seq<CharacterAlias>,
) -> bool {
    let text = clean_surface(alias.text@);
    if !alias_accepted(alias, canonical_name) {
        result == aliases
    } else {
        match find_alias_key(aliases, text_key(text, false), 0) {
            Some(i) => {
                let old_alias = aliases[i];
                &&& result.len() == aliases.len()
                &&& forall|j: int| 0 <= j < aliases.len() && j != i ==> result[j] == aliases[j]
                &&& result[i].text == old_alias.text
                &&& result[i].alias_type == old_alias.alias_type
                &&& result[i].alias_label == old_alias.alias_label
                &&& result[i].is_primary == (old_alias.is_primary || alias.is_primary)
                &&& result[i].evidence@ == if old_alias.evidence@.len() == 0
                    && alias.evidence@.len() > 0 {
                    alias.evidence@
                } else {
                    old_alias.evidence@
                }
            },
            None => {
                let added = result.last();
                &&& result.len() == aliases.len() + 1
                &&& result.drop_last() == aliases
                &&& added.text@ == text
                &&& added.alias_type@ == alias_type_of(alias.alias_type@)
                &&& added.alias_label@ == alias_label_of(
                    alias_type_of(alias.alias_type@),
                    alias.alias_label@,
                )
                &&& added.is_primary == alias.is_primary
                &&& added.evidence == alias.evidence
            },
        }
    }
}

fn find_alias_with_key(aliases: &Vec<CharacterAlias>, key: &String) -> (r: Option<usize>)
    ensures
        match r {
            Some(i) => find_alias_key(aliases@, key@, 0) == Some(i as int) && i < aliases@.len(),
            None => find_alias_key(aliases@, key@, 0) is None,
        },
{
    let mut i: usize = 0;
    while i < aliases.len()
        invariant
            0 <= i <= aliases@.len(),
            find_alias_key(aliases@, key@, 0) == find_alias_key(aliases@, key@, i as int),
        decreases aliases@.len() - i,
    {
        let k = normalized_text_key(aliases[i].text.as_str());
        if str_eq(k.as_str(), key.as_str()) {
            return Some(i);
        }
        i += 1;
    }
    None
}

/// Adds an alias to a character when it is a stable surface of a kept type
/// that is not the name itself; an alias already there with the same key
/// takes its evidence and primary flag instead.
pub fn push_character_alias_if_valid(
    aliases: &mut Vec<CharacterAlias>,
    alias: CharacterAlias,
    canonical_name: &str,
)
    ensures
        aliases_after_push(old(aliases)@, alias, canonical_name@, final(aliases)@),
{
    let raw_text = trim_str(alias.text.as_str());
    let text = clean_character_surface(alias.text.as_str());
    if text.as_str().is_empty() {
        return;
    }
    let text_k = normalized_text_key(text.as_str());
    let canonical_k = normalized_text_key(canonical_name);
    if str_eq(text_k.as_str(), canonical_k.as_str()) || !is_stable_character_alias_surface(
        raw_text.as_str(),
        text.as_str(),
    ) {
        return;
    }
    let alias_type = normalize_character_alias_type(alias.alias_type.as_str());
    if !is_persistable_character_alias_type(alias_type.as_str()) {
        return;
    }
    if character_alias_surface_contains_canonical_name(text.as_str(), canonical_name) {
        return;
    }
    if !character_surface_has_uppercase_token(text.as_str()) && !alias_has_direct_quoted_evidence(
        &alias,
        text.as_str(),
    ) {
        return;
    }
    match find_alias_with_key(aliases, &text_k) {
        Some(i) => {
            let ghost before = aliases@;
            let mut existing = aliases.remove(i);
            if existing.evidence.len() == 0 && alias.evidence.len() > 0 {
                existing.evidence = alias.evidence;
            }
            existing.is_primary = existing.is_primary || alias.is_primary;
            let ghost updated = existing;
            aliases.insert(i, existing);
            proof {
                assert(aliases@ =~= before.update(i as int, updated));
            }
        },
        None => {
            let ghost before = aliases@;
            let alias_label = normalize_character_alias_label(
                alias_type.as_str(),
                alias.alias_label.as_str(),
            );
            aliases.push(
                CharacterAlias {
                    text,
                    alias_label,
                    alias_type,
                    is_primary: alias.is_primary,
                    evidence: alias.evidence,
                },
            );
            proof {
                assert(aliases@.drop_last() =~= before);
            }
        },
    }
}

// ------------------------------------------------------------------------
// Aliases by their values.
// ------------------------------------------------------------------------
/// An alias as the specifications see it: text, type, label, primary flag, evidence.
pub type AliasView = (Seq<char>, Seq<char>, Seq<char>, bool, Seq<StoryEvidenceSpan>);

pub open spec fn alias_view(a: CharacterAlias) -> AliasView {
    (a.text@, a.alias_type@, a.alias_label@, a.is_primary, a.evidence@)
}

pub open spec fn alias_views(s: Seq<CharacterAlias>) -> Seq<AliasView> {
    s.map_values(|a: CharacterAlias| alias_view(a))
}

/// Whether an alias is kept, read from the alias's values.
pub open spec fn alias_view_accepted(a: AliasView, canonical_name: Seq<char>) -> bool {
    let raw = trim(a.0);
    let text = clean_surface(a.0);
    &&& text.len() > 0
    &&& text_key(text, false) != text_key(canonical_name, false)
    &&& is_stable_surface(raw, text)
    &&& is_persistable_alias_type(alias_type_of(a.1))
    &&& !alias_contains_canonical(text, canonical_name)
    &&& (has_uppercase_word(text) || has_quoted_evidence(a.4, text))
}

pub open spec fn find_alias_view_key(views: Seq<AliasView>, key: Seq<char>, i: int) -> Option<int>
    decreases views.len() - i,
{
    if i < 0 || i >= views.len() {
        None
    } else if text_key(views[i].0, false) == key {
        Some(i)
    } else {
        find_alias_view_key(views, key, i + 1)
    }
}

/// The aliases, by their values, after `a` is offered to a character named
/// `canonical_name` (what `push_character_alias_if_valid` does).
pub open spec fn pushed_alias_views(views: Seq<AliasView>, a: AliasView, canonical_name: Seq<char>) -> Seq<
    AliasView,
> {
    let text = clean_surface(a.0);
    if !alias_view_accepted(a, canonical_name) {
        views
    } else {
        match find_alias_view_key(views, text_key(text, false), 0) {
            Some(i) => views.update(
                i,
                (
                    views[i].0,
                    views[i].1,
                    views[i].2,
                    views[i].3 || a.3,
                    if views[i].4.len() == 0 && a.4.len() > 0 {
                        a.4
                    } else {
                        views[i].4
                    },
                ),
            ),
            None => views.push(
                (text, alias_type_of(a.1), alias_label_of(alias_type_of(a.1), a.2), a.3, a.4),
            ),
        }
    }
}

proof fn lemma_find_alias_views(aliases: Seq<CharacterAlias>, key: Seq<char>, i: int)
    requires
        0 <= i,
    ensures
        find_alias_key(aliases, key, i) == find_alias_view_key(alias_views(aliases), key, i),
        find_alias_key(aliases, key, i) matches Some(k) ==> i <= k < aliases.len(),
    decreases aliases.len() - i,
{
    if i < aliases.len() {
        lemma_find_alias_views(aliases, key, i + 1);
    }
}

/// What `push_character_alias_if_valid` leaves, read by values.
pub proof fn lemma_pushed_alias_views(
    aliases: Seq<CharacterAlias>,
    alias: CharacterAlias,
    canonical_name: Seq<char>,
    result: Seq<CharacterAlias>,
)
    requires
        aliases_after_push(aliases, alias, canonical_name, result),
    ensures
        alias_views(result) == pushed_alias_views(alias_views(aliases), alias_view(alias), canonical_name),
{
    let text = clean_surface(alias.text@);
    lemma_find_alias_views(aliases, text_key(text, false), 0);
    if alias_accepted(alias, canonical_name) {
        match find_alias_key(aliases, text_key(text, false), 0) {
            Some(i) => {
                let expected = pushed_alias_views(alias_views(aliases), alias_view(alias), canonical_name);
                assert(expected.len() == result.len());
                assert forall|j: int| 0 <= j < result.len() implies alias_views(result)[j]
                    == expected[j] by {
                    if j != i {
                        assert(result[j] == aliases[j]);
                    } else {
                        assert(alias_views(result)[j] == alias_view(result[i]));
                        assert(alias_views(aliases)[i] == alias_view(aliases[i]));
                    }
                }
                assert(alias_views(result) =~= expected);
            },
            None => {
                assert(result =~= aliases.push(result.last()));
                assert(alias_views(result) =~= pushed_alias_views(
                    alias_views(aliases),
                    alias_view(alias),
                    canonical_name,
                ));
            },
        }
    }
}

/// A copy of an alias.
pub fn clone_alias(alias: &CharacterAlias) -> (r: CharacterAlias)
    ensures
        alias_view(r) == alias_view(*alias),
{
    CharacterAlias {
        text: alias.text.clone(),
        alias_type: alias.alias_type.clone(),
        alias_label: alias.alias_label.clone(),
        is_primary: alias.is_primary,
        evidence: clone_evidence(&alias.evidence),
    }
}

/// Offers `alias` to the aliases of a character named `canonical_name`, read by values.
pub fn push_alias(aliases: &mut Vec<CharacterAlias>, alias: CharacterAlias, canonical_name: &str)
    ensures
        alias_views(final(aliases)@) == pushed_alias_views(
            alias_views(old(aliases)@),
            alias_view(alias),
            canonical_name@,
        ),
{
    let ghost a = alias;
    push_character_alias_if_valid(aliases, alias, canonical_name);
    proof {
        lemma_pushed_alias_views(old(aliases)@, a, canonical_name@, aliases@);
    }
}

// ------------------------------------------------------------------------
// Keyed collections.
// ------------------------------------------------------------------------
pub(crate) fn keys_contain(keys: &Vec<String>, key: &String) -> (r: bool)
    ensures
        r == keys@.map_values(|k: String| k@).contains(key@),
{
    let ghost kv = keys@.map_values(|k: String| k@);
    let mut i: usize = 0;
    while i < keys.len()
        invariant
            kv == keys@.map_values(|k: String| k@),
            0 <= i <= keys@.len(),
            forall|j: int| 0 <= j < i ==> kv[j] != key@,
        decreases keys@.len() - i,
    {
        if str_eq(keys[i].as_str(), key.as_str()) {
            assert(kv[i as int] == key@);
            return true;
        }
        i += 1;
    }
    false
}

pub open spec fn string_views(v: Seq<String>) -> Seq<Seq<char>> {
    v.map_values(|k: String| k@)
}

// ------------------------------------------------------------------------
// Identities.
// ------------------------------------------------------------------------
/// The names kept from identities, with their keys: each cleaned name that is
/// not empty and whose key was not seen before.
pub open spec fn identity_names_scan(ids: Seq<CharacterIdentity>) -> (Seq<Seq<char>>, Seq<Seq<char>>)
    decreases ids.len(),
{
    if ids.len() == 0 {
        (seq![], seq![])
    } else {
        let (names, keys) = identity_names_scan(ids.drop_last());
        let name = clean_surface(ids.last().name@);
        let key = text_key(name, false);
        if name.len() == 0 || keys.contains(key) {
            (names, keys)
        } else {
            (names.push(name), keys.push(key))
        }
    }
}

pub open spec fn identity_names(ids: Seq<CharacterIdentity>) -> Seq<Seq<char>> {
    ids.map_values(|i: CharacterIdentity| i.name@)
}

pub open spec fn all_without_aliases(ids: Seq<CharacterIdentity>) -> bool {
    forall|i: int| 0 <= i < ids.len() ==> #[trigger] ids[i].aliases@.len() == 0
}

/// The identities with cleaned names, without aliases, one per name key.
pub fn normalize_character_identities(identities: Vec<CharacterIdentity>) -> (r: Vec<CharacterIdentity>)
    ensures
        identity_names(r@) == identity_names_scan(identities@).0,
        all_without_aliases(r@),
{
    let mut out: Vec<CharacterIdentity> = Vec::new();
    let mut seen: Vec<String> = Vec::new();
    let mut i: usize = 0;
    while i < identities.len()
        invariant
            0 <= i <= identities@.len(),
            (identity_names(out@), string_views(seen@)) == identity_names_scan(
                identities@.take(i as int),
            ),
            all_without_aliases(out@),
        decreases identities@.len() - i,
    {
        proof {
            assert(identities@.take(i + 1).drop_last() =~= identities@.take(i as int));
        }
        let name = clean_character_surface(identities[i].name.as_str());
        if !name.as_str().is_empty() {
            let key = normalized_text_key(name.as_str());
            if !keys_contain(&seen, &key) {
                let ghost names_before = identity_names(out@);
                let ghost keys_before = string_views(seen@);
                out.push(CharacterIdentity { name, aliases: Vec::new() });
                seen.push(key);
                proof {
                    assert(identity_names(out@) =~= names_before.push(name@));
                    assert(string_views(seen@) =~= keys_before.push(key@));
                }
            }
        }
        i += 1;
    }
    proof {
        assert(identities@.take(identities@.len() as int) =~= identities@);
    }
    out
}

/// The name a candidate proposes: its display name, else its surface text
/// (whichever first is not blank), cleaned.
pub open spec fn candidate_name(c: CharacterCandidate) -> Seq<char> {
    if trim(c.display_name@).len() > 0 {
        clean_surface(c.display_name@)
    } else if trim(c.surface_text@).len() > 0 {
        clean_surface(c.surface_text@)
    } else {
        clean_surface(""@)
    }
}

/// The identities proposed by the candidates of an allowed kind with a name.
pub open spec fn candidate_identities(cs: Seq<CharacterCandidate>) -> Seq<Seq<char>>
    decreases cs.len(),
{
    if cs.len() == 0 {
        seq![]
    } else {
        let prev = candidate_identities(cs.drop_last());
        let c = cs.last();
        if candidate_kind_allowed(c.kind@) && candidate_name(c).len() > 0 {
            prev.push(candidate_name(c))
        } else {
            prev
        }
    }
}

/// Turns candidates into identities: allowed kinds only, named, one per key.
pub fn normalize_character_candidates(candidates: Vec<CharacterCandidate>) -> (r: Vec<CharacterIdentity>)
    ensures
        exists|ids: Seq<CharacterIdentity>|
            identity_names(ids) == candidate_identities(candidates@) && identity_names(r@)
                == #[trigger] identity_names_scan(ids).0,
        all_without_aliases(r@),
{
    let mut identities: Vec<CharacterIdentity> = Vec::new();
    let mut i: usize = 0;
    while i < candidates.len()
        invariant
            0 <= i <= candidates@.len(),
            identity_names(identities@) == candidate_identities(candidates@.take(i as int)),
        decreases candidates@.len() - i,
    {
        proof {
            assert(candidates@.take(i + 1).drop_last() =~= candidates@.take(i as int));
        }
        let c = &candidates[i];
        if character_candidate_kind_is_allowed(c.kind.as_str()) {
            let source = if !crate::text::str_is_blank(c.display_name.as_str()) {
                c.display_name.as_str()
            } else if !crate::text::str_is_blank(c.surface_text.as_str()) {
                c.surface_text.as_str()
            } else {
                ""
            };
            let name = clean_character_surface(source);
            if !name.as_str().is_empty() {
                let ghost before = identity_names(identities@);
                identities.push(CharacterIdentity { name, aliases: Vec::new() });
                proof {
                    assert(identity_names(identities@) =~= before.push(name@));
                }
            }
        }
        i += 1;
    }
    proof {
        assert(candidates@.take(candidates@.len() as int) =~= candidates@);
    }
    let ghost ids = identities@;
    let r = normalize_character_identities(identities);
    proof {
        assert(identity_names(r@) == identity_names_scan(ids).0);
    }
    r
}

/// The hints added to identities: each hint's cleaned name whose key is not
/// empty and is not the key of an identity or of an earlier added hint.
pub open spec fn hints_scan(keys: Seq<Seq<char>>, hints: Seq<CharacterIdentity>) -> (Seq<Seq<char>>, Seq<Seq<char>>)
    decreases hints.len(),
{
    if hints.len() == 0 {
        (seq![], keys)
    } else {
        let (added, ks) = hints_scan(keys, hints.drop_last());
        let name = clean_surface(hints.last().name@);
        let key = text_key(name, false);
        if key.len() == 0 || ks.contains(key) {
            (added, ks)
        } else {
            (added.push(name), ks.push(key))
        }
    }
}

pub open spec fn identity_keys(ids: Seq<CharacterIdentity>) -> Seq<Seq<char>> {
    ids.map_values(|i: CharacterIdentity| text_key(i.name@, false))
}

/// Appends the hints whose names are new.
pub fn merge_character_identity_hints(identities: &mut Vec<CharacterIdentity>, hints: Vec<CharacterIdentity>)
    ensures
        final(identities)@.len() >= old(identities)@.len(),
        final(identities)@.take(old(identities)@.len() as int) == old(identities)@,
        identity_names(final(identities)@.skip(old(identities)@.len() as int)) == hints_scan(
            identity_keys(old(identities)@),
            hints@,
        ).0,
        all_without_aliases(final(identities)@.skip(old(identities)@.len() as int)),
{
    let ghost start = identities@;
    let mut seen: Vec<String> = Vec::new();
    let mut j: usize = 0;
    while j < identities.len()
        invariant
            identities@ == start,
            0 <= j <= identities@.len(),
            string_views(seen@) == identity_keys(start.take(j as int)),
        decreases identities@.len() - j,
    {
        let k = normalized_text_key(identities[j].name.as_str());
        let ghost before = string_views(seen@);
        seen.push(k);
        proof {
            assert(string_views(seen@) =~= before.push(k@));
            assert(identity_keys(start.take(j + 1)) =~= identity_keys(start.take(j as int)).push(
                text_key(start[j as int].name@, false),
            ));
        }
        j += 1;
    }
    proof {
        assert(start.take(start.len() as int) =~= start);
    }
    let n = identities.len();
    let mut i: usize = 0;
    while i < hints.len()
        invariant
            n == start.len(),
            identities@.len() >= n,
            identities@.take(n as int) == start,
            0 <= i <= hints@.len(),
            (identity_names(identities@.skip(n as int)), string_views(seen@)) == hints_scan(
                identity_keys(start),
                hints@.take(i as int),
            ),
            all_without_aliases(identities@.skip(n as int)),
        decreases hints@.len() - i,
    {
        proof {
            assert(hints@.take(i + 1).drop_last() =~= hints@.take(i as int));
        }
        let name = clean_character_surface(hints[i].name.as_str());
        let key = normalized_text_key(name.as_str());
        if !key.as_str().is_empty() && !keys_contain(&seen, &key) {
            let ghost names_before = identity_names(identities@.skip(n as int));
            let ghost keys_before = string_views(seen@);
            let ghost ids_before = identities@;
            identities.push(CharacterIdentity { name, aliases: Vec::new() });
            seen.push(key);
            proof {
                assert(identities@.skip(n as int) =~= ids_before.skip(n as int).push(
                    identities@.last(),
                ));
                assert(identity_names(identities@.skip(n as int)) =~= names_before.push(name@));
                assert(string_views(seen@) =~= keys_before.push(key@));
                assert(identities@.take(n as int) =~= ids_before.take(n as int));
            }
        }
        i += 1;
    }
    proof {
        assert(hints@.take(hints@.len() as int) =~= hints@);
    }
}

// ------------------------------------------------------------------------
// The surfaces an identity is searched by.
// ------------------------------------------------------------------------
/// The surfaces of an identity (its cleaned name, then its cleaned aliases)
/// that have 2 to 64 chars and a key not empty and not seen before, with
/// `name` or `alias` for the kind of mention.
pub open spec fn surfaces_scan(items: Seq<(Seq<char>, Seq<char>)>) -> (Seq<(Seq<char>, Seq<char>)>, Seq<Seq<char>>)
    decreases items.len(),
{
    if items.len() == 0 {
        (seq![], seq![])
    } else {
        let (out, keys) = surfaces_scan(items.drop_last());
        let (surface, kind) = items.last();
        let key = text_key(surface, false);
        if surface.len() < 2 || surface.len() > 64 || key.len() == 0 || keys.contains(key) {
            (out, keys)
        } else {
            (out.push((surface, kind)), keys.push(key))
        }
    }
}

/// The candidate surfaces of an identity, before filtering.
pub open spec fn identity_surface_items(identity: CharacterIdentity) -> Seq<(Seq<char>, Seq<char>)> {
    seq![(clean_surface(identity.name@), "name"@)] + identity.aliases@.map_values(
        |a: CharacterAlias| (clean_surface(a.text@), "alias"@),
    )
}

pub open spec fn surface_pair_views(v: Seq<(String, String)>) -> Seq<(Seq<char>, Seq<char>)> {
    v.map_values(|p: (String, String)| (p.0@, p.1@))
}

fn push_character_surface(
    surfaces: &mut Vec<(String, String)>,
    seen: &mut Vec<String>,
    surface: String,
    mention_type: &str,
)
    ensures
        ({
            let (out, keys) = (surface_pair_views(old(surfaces)@), string_views(old(seen)@));
            let key = text_key(surface@, false);
            if surface@.len() < 2 || surface@.len() > 64 || key.len() == 0 || keys.contains(key) {
                surface_pair_views(final(surfaces)@) == out && string_views(final(seen)@) == keys
            } else {
                surface_pair_views(final(surfaces)@) == out.push((surface@, mention_type@))
                    && string_views(final(seen)@) == keys.push(key)
            }
        }),
{
    let count = chars_of(surface.as_str()).len();
    if count < 2 || count > 64 {
        return;
    }
    let key = normalized_text_key(surface.as_str());
    if key.as_str().is_empty() || keys_contain(seen, &key) {
        return;
    }
    let ghost out = surface_pair_views(surfaces@);
    let ghost keys = string_views(seen@);
    let kind = owned(mention_type);
    surfaces.push((surface, kind));
    seen.push(key);
    proof {
        assert(surface_pair_views(surfaces@) =~= out.push((surface@, mention_type@)));
        assert(string_views(seen@) =~= keys.push(key@));
    }
}

/// The surfaces a character is found by: its name, then its aliases, each
/// key once, with the kind of mention it is.
#[verifier::spinoff_prover]
pub fn character_identity_surfaces(identity: &CharacterIdentity) -> (r: Vec<(String, String)>)
    ensures
        surface_pair_views(r@) == surfaces_scan(identity_surface_items(*identity)).0,
{
    let ghost items = identity_surface_items(*identity);
    let mut surfaces: Vec<(String, String)> = Vec::new();
    let mut seen: Vec<String> = Vec::new();
    push_character_surface(
        &mut surfaces,
        &mut seen,
        clean_character_surface(identity.name.as_str()),
        "name",
    );
    proof {
        reveal_strlit("name");
        let first = items.take(1);
        assert(first.drop_last() =~= Seq::<(Seq<char>, Seq<char>)>::empty());
        assert(first.last() == items[0]);
        assert(items[0] == (clean_surface(identity.name@), "name"@));
        let empty_out = Seq::<(Seq<char>, Seq<char>)>::empty();
        let empty_keys = Seq::<Seq<char>>::empty();
        assert(surfaces_scan(first.drop_last()) == (empty_out, empty_keys));
        assert(!empty_keys.contains(text_key(items[0].0, false)));
        assert((surface_pair_views(surfaces@), string_views(seen@)) == surfaces_scan(first));
    }
    let mut i: usize = 0;
    while i < identity.aliases.len()
        invariant
            items == identity_surface_items(*identity),
            items.len() == identity.aliases@.len() + 1,
            0 <= i <= identity.aliases@.len(),
            (surface_pair_views(surfaces@), string_views(seen@)) == surfaces_scan(
                items.take(i + 1),
            ),
        decreases identity.aliases@.len() - i,
    {
        proof {
            assert(items.take(i + 2).drop_last() =~= items.take(i + 1));
            assert(items[i + 1] == (clean_surface(identity.aliases@[i as int].text@), "alias"@));
        }
        push_character_surface(
            &mut surfaces,
            &mut seen,
            clean_character_surface(identity.aliases[i].text.as_str()),
            "alias",
        );
        i += 1;
    }
    proof {
        assert(items.take(items.len() as int) =~= items);
    }
    surfaces
}

} // verus!
