//! Resolving a character observed in a chapter against the characters already
//! known: comparison keys, the edit distance of two names, and the rules that
//! decide which aliases an identity takes from another.
use vstd::prelude::*;
use crate::characters::{
    character_surface_key_contains_other_surface, surface_contains_other, character_identity_surfaces, identity_surface_items, surface_pair_views, surfaces_scan,
    alias_type_of, alias_view, alias_views, clone_alias, is_persistable_alias_type,
    is_persistable_character_alias_type, normalize_character_alias_type, push_alias,
    pushed_alias_views, AliasView, CharacterAlias, CharacterIdentity,
};
use crate::keys::{
    normalize_ascii_snake_key, normalized_folded_text_key, normalized_text_key, snake_key, text_key,
};
use crate::occurrences::{
    find_surface_occurrences, occurrence_views, surface_occurrences, ScannedCharacterOccurrence,
};
use crate::surfaces::{clean_character_surface, clean_surface};
use crate::records::{
    deletes_to, diff_count, key_word_count, one_edit_apart, StoryExtractionDocument,
    StoryExtractionRecordPayload,
};
use crate::relationships::StoryExtractionRecordView;
use crate::text::{
    chars_eq, chars_of, ends_with_chars, has_prefix, has_suffix, owned, starts_with_chars, str_eq,
};

verus! {

// ------------------------------------------------------------------------
// Edit distance.
// ------------------------------------------------------------------------
pub open spec fn min3(a: nat, b: nat, c: nat) -> nat {
    if a <= b && a <= c {
        a
    } else if b <= c {
        b
    } else {
        c
    }
}

/// The Levenshtein distance of two sequences of chars: the fewest single-char
/// insertions, deletions and replacements that turn one into the other.
pub open spec fn edit_distance(a: Seq<char>, b: Seq<char>) -> nat
    decreases a.len() + b.len(),
{
    if a.len() == 0 {
        b.len()
    } else if b.len() == 0 {
        a.len()
    } else {
        min3(
            edit_distance(a.drop_last(), b) + 1,
            edit_distance(a, b.drop_last()) + 1,
            edit_distance(a.drop_last(), b.drop_last()) + if a.last() == b.last() {
                0nat
            } else {
                1nat
            },
        )
    }
}

proof fn lemma_edit_distance_bound(a: Seq<char>, b: Seq<char>)
    ensures
        edit_distance(a, b) <= a.len() + b.len(),
    decreases a.len() + b.len(),
{
    if a.len() > 0 && b.len() > 0 {
        lemma_edit_distance_bound(a.drop_last(), b);
    }
}

/// The edit distance is symmetric, and it is zero exactly when the two
/// sequences are equal.
pub proof fn lemma_edit_distance_symmetric_and_zero(a: Seq<char>, b: Seq<char>)
    ensures
        edit_distance(a, b) == edit_distance(b, a),
        edit_distance(a, b) == 0 <==> a == b,
    decreases a.len() + b.len(),
{
    if a.len() > 0 && b.len() > 0 {
        lemma_edit_distance_symmetric_and_zero(a.drop_last(), b);
        lemma_edit_distance_symmetric_and_zero(a, b.drop_last());
        lemma_edit_distance_symmetric_and_zero(a.drop_last(), b.drop_last());
        if a == b {
            assert(a.drop_last() == b.drop_last());
        }
        if edit_distance(a, b) == 0 {
            assert(a =~= a.drop_last().push(a.last()));
            assert(b =~= b.drop_last().push(b.last()));
        }
    } else if a.len() == 0 && b.len() == 0 {
        assert(a =~= b);
    } else if a.len() == 0 {
        assert(a != b);
    } else {
        assert(a != b);
    }
}

proof fn lemma_edit_distance_len_gap(a: Seq<char>, b: Seq<char>)
    ensures
        edit_distance(a, b) >= a.len() - b.len(),
        edit_distance(a, b) >= b.len() - a.len(),
    decreases a.len() + b.len(),
{
    if a.len() > 0 && b.len() > 0 {
        lemma_edit_distance_len_gap(a.drop_last(), b);
        lemma_edit_distance_len_gap(a, b.drop_last());
        lemma_edit_distance_len_gap(a.drop_last(), b.drop_last());
    }
}

proof fn lemma_diff_count_symmetric(a: Seq<char>, b: Seq<char>)
    ensures
        diff_count(a, b) == diff_count(b, a),
        a.len() == b.len() ==> (diff_count(a, b) == 0 <==> a == b),
    decreases a.len(),
{
    if a.len() > 0 && b.len() > 0 {
        lemma_diff_count_symmetric(a.drop_last(), b.drop_last());
        if a.len() == b.len() && diff_count(a, b) == 0 {
            assert(a =~= a.drop_last().push(a.last()));
            assert(b =~= b.drop_last().push(b.last()));
        }
    } else if a.len() == b.len() {
        assert(a =~= b);
    }
}

/// One char longer: `b` is `a` with one char inserted exactly when their edit
/// distance is at most one.
proof fn lemma_edit_distance_insert(a: Seq<char>, b: Seq<char>)
    requires
        b.len() == a.len() + 1,
    ensures
        edit_distance(a, b) <= 1 <==> deletes_to(b, a),
    decreases a.len(),
{
    if a.len() == 0 {
        assert(b.remove(0) =~= a);
    } else {
        let a1 = a.drop_last();
        let b1 = b.drop_last();
        lemma_edit_distance_insert(a1, b1);
        lemma_edit_distance_symmetric_and_zero(a1, b);
        lemma_edit_distance_symmetric_and_zero(a, b1);
        lemma_edit_distance_symmetric_and_zero(a1, b1);
        lemma_edit_distance_len_gap(a1, b);
        lemma_edit_distance_len_gap(a1, b1);
        if edit_distance(a, b) <= 1 {
            if a == b1 {
                assert(b.remove(b.len() - 1) =~= a);
            } else {
                assert(a.last() == b.last() && edit_distance(a1, b1) <= 1);
                let k = choose|k: int| 0 <= k < b1.len() && a1 == b1.remove(k);
                assert(b.remove(k) =~= b1.remove(k).push(b.last()));
                assert(a =~= a1.push(a.last()));
            }
        }
        if deletes_to(b, a) {
            let k = choose|k: int| 0 <= k < b.len() && a == b.remove(k);
            if k == b.len() - 1 {
                assert(a =~= b1);
            } else {
                assert(a.last() == b.remove(k).last());
                assert(a1 =~= b1.remove(k));
                assert(deletes_to(b1, a1));
            }
        }
    }
}

/// Same length: the edit distance is at most one exactly when at most one
/// position differs.
proof fn lemma_edit_distance_same_len(a: Seq<char>, b: Seq<char>)
    requires
        a.len() == b.len(),
    ensures
        edit_distance(a, b) <= 1 <==> diff_count(a, b) <= 1,
    decreases a.len(),
{
    if a.len() > 0 {
        let a1 = a.drop_last();
        let b1 = b.drop_last();
        lemma_edit_distance_same_len(a1, b1);
        lemma_edit_distance_symmetric_and_zero(a1, b1);
        lemma_diff_count_symmetric(a1, b1);
        lemma_edit_distance_len_gap(a1, b);
        lemma_edit_distance_len_gap(a, b1);
    }
}

/// Two names are one edit apart exactly when their Levenshtein distance is at
/// most one; either way round gives the same answer.
pub proof fn lemma_one_edit_apart_is_distance_one(a: Seq<char>, b: Seq<char>)
    ensures
        one_edit_apart(a, b) <==> edit_distance(a, b) <= 1,
        one_edit_apart(a, b) == one_edit_apart(b, a),
{
    lemma_edit_distance_symmetric_and_zero(a, b);
    lemma_diff_count_symmetric(a, b);
    lemma_edit_distance_len_gap(a, b);
    if a.len() == b.len() {
        lemma_edit_distance_same_len(a, b);
    } else if a.len() + 1 == b.len() {
        lemma_edit_distance_insert(a, b);
    } else if b.len() + 1 == a.len() {
        lemma_edit_distance_insert(b, a);
    }
}

/// The edit distance of two char sequences, computed by rows of the
/// distance table.
pub fn levenshtein_distance(left: &[char], right: &[char]) -> (r: usize)
    requires
        left@.len() + right@.len() < usize::MAX,
    ensures
        r == edit_distance(left@, right@),
{
    let n = left.len();
    let m = right.len();
    let mut previous: Vec<usize> = Vec::new();
    let mut current: Vec<usize> = Vec::new();
    let mut j: usize = 0;
    while j <= m
        invariant
            m == right@.len(),
            m < usize::MAX,
            0 <= j <= m + 1,
            previous@.len() == j,
            current@.len() == j,
            forall|k: int| 0 <= k < j ==> #[trigger] previous@[k] == edit_distance(
                left@.take(0),
                right@.take(k),
            ),
        decreases m + 1 - j,
    {
        proof {
            assert(left@.take(0).len() == 0);
        }
        previous.push(j);
        current.push(0);
        j += 1;
    }
    let mut i: usize = 0;
    while i < n
        invariant
            n == left@.len(),
            m == right@.len(),
            n + m < usize::MAX,
            0 <= i <= n,
            previous@.len() == m + 1,
            current@.len() == m + 1,
            forall|k: int| 0 <= k <= m ==> #[trigger] previous@[k] == edit_distance(
                left@.take(i as int),
                right@.take(k),
            ),
        decreases n - i,
    {
        let ghost a = left@.take(i + 1);
        proof {
            assert(a.drop_last() =~= left@.take(i as int));
            assert(a.last() == left@[i as int]);
            assert(right@.take(0).len() == 0);
        }
        current.set(0, i + 1);
        let mut j: usize = 0;
        while j < m
            invariant
                n == left@.len(),
                m == right@.len(),
                n + m < usize::MAX,
                0 <= i < n,
                0 <= j <= m,
                a == left@.take(i + 1),
                a.drop_last() == left@.take(i as int),
                a.last() == left@[i as int],
                previous@.len() == m + 1,
                current@.len() == m + 1,
                forall|k: int| 0 <= k <= m ==> #[trigger] previous@[k] == edit_distance(
                    left@.take(i as int),
                    right@.take(k),
                ),
                forall|k: int| 0 <= k <= j ==> #[trigger] current@[k] == edit_distance(
                    a,
                    right@.take(k),
                ),
            decreases m - j,
        {
            let ghost b = right@.take(j + 1);
            proof {
                assert(b.drop_last() =~= right@.take(j as int));
                assert(b.last() == right@[j as int]);
                lemma_edit_distance_bound(a, right@.take(j as int));
                lemma_edit_distance_bound(left@.take(i as int), b);
                lemma_edit_distance_bound(left@.take(i as int), right@.take(j as int));
            }
            let insert_cost = current[j] + 1;
            let delete_cost = previous[j + 1] + 1;
            let replace_cost = previous[j] + if left[i] != right[j] {
                1
            } else {
                0
            };
            let mut best = insert_cost;
            if delete_cost < best {
                best = delete_cost;
            }
            if replace_cost < best {
                best = replace_cost;
            }
            proof {
                assert(previous@[j + 1] == edit_distance(left@.take(i as int), b));
                assert(best == edit_distance(a, b));
            }
            current.set(j + 1, best);
            j += 1;
        }
        std::mem::swap(&mut previous, &mut current);
        i += 1;
    }
    proof {
        assert(left@.take(n as int) =~= left@);
        assert(right@.take(m as int) =~= right@);
    }
    previous[m]
}

// ------------------------------------------------------------------------
// Strong keys and decided actions.
// ------------------------------------------------------------------------
/// The number of chars of a key that are not `_`.
pub open spec fn non_separator_count(key: Seq<char>) -> nat
    decreases key.len(),
{
    if key.len() == 0 {
        0
    } else if key.last() != '_' {
        non_separator_count(key.drop_last()) + 1
    } else {
        non_separator_count(key.drop_last())
    }
}

/// A key strong enough to resolve a character by: at least four letters, and
/// either two words or six letters.
pub open spec fn strong_resolution_key(key: Seq<char>) -> bool {
    non_separator_count(key) >= 4 && (key_word_count(key) >= 2 || non_separator_count(key) >= 6)
}

/// The number of non-empty `_`-separated words of a key.
pub fn character_resolution_token_count(key: &str) -> (r: usize)
    ensures
        r == key_word_count(key@),
{
    let cs = chars_of(key);
    let mut words: usize = 0;
    let mut i: usize = 0;
    while i < cs.len()
        invariant
            cs@ == key@,
            0 <= i <= cs@.len(),
            words == key_word_count(cs@.take(i as int)),
            words <= i,
        decreases cs@.len() - i,
    {
        proof {
            assert(cs@.take(i + 1).drop_last() =~= cs@.take(i as int));
        }
        if cs[i] != '_' && (i == 0 || cs[i - 1] == '_') {
            words += 1;
        }
        i += 1;
    }
    proof {
        assert(cs@.take(cs@.len() as int) =~= cs@);
    }
    words
}

pub fn is_strong_character_resolution_key(key: &str) -> (r: bool)
    ensures
        r == strong_resolution_key(key@),
{
    let cs = chars_of(key);
    let mut count: usize = 0;
    let mut i: usize = 0;
    while i < cs.len()
        invariant
            cs@ == key@,
            0 <= i <= cs@.len(),
            count == non_separator_count(cs@.take(i as int)),
            count <= i,
        decreases cs@.len() - i,
    {
        proof {
            assert(cs@.take(i + 1).drop_last() =~= cs@.take(i as int));
        }
        if cs[i] != '_' {
            count += 1;
        }
        i += 1;
    }
    proof {
        assert(cs@.take(cs@.len() as int) =~= cs@);
    }
    if count < 4 {
        return false;
    }
    character_resolution_token_count(key) >= 2 || count >= 6
}

/// The action a merge decision names: `merge_existing`, `ignore` or `create_new`.
pub open spec fn merge_action(key: Seq<char>) -> Seq<char> {
    if key == "merge_existing"@ || key == "merge"@ || key == "merge_into_existing"@ {
        "merge_existing"@
    } else if key == "ignore"@ || key == "skip"@ {
        "ignore"@
    } else {
        "create_new"@
    }
}

/// The action a creation decision names: `merge_existing`, `reject` or `create_new`.
pub open spec fn creation_action(key: Seq<char>) -> Seq<char> {
    if key == "merge_existing"@ || key == "merge"@ || key == "merge_into_existing"@ {
        "merge_existing"@
    } else if key == "reject"@ || key == "ignore"@ || key == "skip"@ {
        "reject"@
    } else {
        "create_new"@
    }
}

pub fn normalize_character_identity_merge_action(action: &str) -> (r: &'static str)
    ensures
        r@ == merge_action(snake_key(action@)),
{
    let key = normalize_ascii_snake_key(action);
    let k = key.as_str();
    if str_eq(k, "merge_existing") || str_eq(k, "merge") || str_eq(k, "merge_into_existing") {
        "merge_existing"
    } else if str_eq(k, "ignore") || str_eq(k, "skip") {
        "ignore"
    } else {
        "create_new"
    }
}

pub fn normalize_character_identity_creation_action(action: &str) -> (r: &'static str)
    ensures
        r@ == creation_action(snake_key(action@)),
{
    let key = normalize_ascii_snake_key(action);
    let k = key.as_str();
    if str_eq(k, "merge_existing") || str_eq(k, "merge") || str_eq(k, "merge_into_existing") {
        "merge_existing"
    } else if str_eq(k, "reject") || str_eq(k, "ignore") || str_eq(k, "skip") {
        "reject"
    } else {
        "create_new"
    }
}

// ------------------------------------------------------------------------
// Names already known.
// ------------------------------------------------------------------------
pub open spec fn push_name_key(keys: Seq<Seq<char>>, name: Seq<char>) -> Seq<Seq<char>> {
    if text_key(name, false).len() > 0 {
        keys.push(text_key(name, false))
    } else {
        keys
    }
}

pub open spec fn stored_name_keys(records: Seq<StoryExtractionRecordView>) -> Seq<Seq<char>>
    decreases records.len(),
{
    if records.len() == 0 {
        seq![]
    } else {
        push_name_key(stored_name_keys(records.drop_last()), records.last().display_name@)
    }
}

pub open spec fn working_name_keys(keys: Seq<Seq<char>>, records: Seq<StoryExtractionRecordPayload>) -> Seq<
    Seq<char>,
>
    decreases records.len(),
{
    if records.len() == 0 {
        keys
    } else {
        push_name_key(working_name_keys(keys, records.drop_last()), records.last().display_name@)
    }
}

/// The keys of the names of the stored records and of the chapter's working
/// records, empty keys left out.
pub open spec fn known_name_keys(
    db_records: Seq<StoryExtractionRecordView>,
    working: Seq<StoryExtractionRecordPayload>,
) -> Seq<Seq<char>> {
    working_name_keys(stored_name_keys(db_records), working)
}

fn push_known_name_key(keys: &mut Vec<String>, name: &str)
    ensures
        keys_view(final(keys)@) == push_name_key(keys_view(old(keys)@), name@),
{
    let key = normalized_text_key(name);
    if !key.as_str().is_empty() {
        keys.push(key);
        proof {
            assert(keys_view(keys@) =~= keys_view(old(keys)@).push(key@));
        }
    }
}

pub open spec fn keys_view(keys: Seq<String>) -> Seq<Seq<char>> {
    keys.map_values(|k: String| k@)
}

/// The keys are held in a list; only membership is used.
pub fn known_character_name_keys(
    db_records: &Vec<StoryExtractionRecordView>,
    working_document: &StoryExtractionDocument,
) -> (r: Vec<String>)
    ensures
        keys_view(r@) == known_name_keys(db_records@, working_document.records@),
{
    let mut keys: Vec<String> = Vec::new();
    let mut i: usize = 0;
    proof {
        assert(db_records@.take(0) =~= Seq::<StoryExtractionRecordView>::empty());
        assert(keys_view(keys@) =~= Seq::<Seq<char>>::empty());
    }
    while i < db_records.len()
        invariant
            0 <= i <= db_records@.len(),
            keys_view(keys@) == stored_name_keys(db_records@.take(i as int)),
        decreases db_records@.len() - i,
    {
        proof {
            assert(db_records@.take(i + 1).drop_last() =~= db_records@.take(i as int));
        }
        push_known_name_key(&mut keys, db_records[i].display_name.as_str());
        i += 1;
    }
    proof {
        assert(db_records@.take(i as int) =~= db_records@);
    }
    let ghost stored = keys_view(keys@);
    let records = &working_document.records;
    let mut j: usize = 0;
    proof {
        assert(records@.take(0) =~= Seq::<StoryExtractionRecordPayload>::empty());
    }
    while j < records.len()
        invariant
            0 <= j <= records@.len(),
            stored == stored_name_keys(db_records@),
            keys_view(keys@) == working_name_keys(stored, records@.take(j as int)),
        decreases records@.len() - j,
    {
        proof {
            assert(records@.take(j + 1).drop_last() =~= records@.take(j as int));
        }
        push_known_name_key(&mut keys, records[j].display_name.as_str());
        j += 1;
    }
    proof {
        assert(records@.take(j as int) =~= records@);
    }
    keys
}

fn contains_key(keys: &Vec<String>, key: &str) -> (r: bool)
    ensures
        r == keys_view(keys@).contains(key@),
{
    let mut i: usize = 0;
    while i < keys.len()
        invariant
            0 <= i <= keys@.len(),
            forall|j: int| 0 <= j < i ==> keys_view(keys@)[j] != key@,
        decreases keys@.len() - i,
    {
        if str_eq(keys[i].as_str(), key) {
            assert(keys_view(keys@)[i as int] == key@);
            return true;
        }
        i += 1;
    }
    false
}

// ------------------------------------------------------------------------
// Aliases taken from an observed identity.
// ------------------------------------------------------------------------
/// The alias an observed name becomes on a known character.
pub open spec fn other_alias_view(name: Seq<char>) -> AliasView {
    (name, "other_alias"@, "T\u{ea}n g\u{1ecd}i kh\u{e1}c"@, false, seq![])
}

pub open spec fn opt_identity(o: Option<&CharacterIdentity>) -> Option<CharacterIdentity> {
    match o {
        Some(i) => Some(*i),
        None => None,
    }
}

/// The observed aliases offered in turn to a character named `target_name`:
/// only those of a persistable type, and none that is another known name.
pub open spec fn observed_aliases_scan(
    views: Seq<AliasView>,
    aliases: Seq<CharacterAlias>,
    target_name: Seq<char>,
    known: Seq<Seq<char>>,
) -> Seq<AliasView>
    decreases aliases.len(),
{
    if aliases.len() == 0 {
        views
    } else {
        let prev = observed_aliases_scan(views, aliases.drop_last(), target_name, known);
        let a = aliases.last();
        let key = text_key(a.text@, false);
        if !is_persistable_alias_type(a.alias_type@) {
            prev
        } else if known.contains(key) && key != text_key(target_name, false) {
            prev
        } else {
            pushed_alias_views(prev, alias_view(a), target_name)
        }
    }
}

/// The aliases of a character named `target_name` after it takes what an
/// observed identity says: the observed name, when it differs and names no
/// other known character, then the observed aliases.
pub open spec fn observed_merge(
    views: Seq<AliasView>,
    target_name: Seq<char>,
    observed: Option<CharacterIdentity>,
    known: Seq<Seq<char>>,
) -> Seq<AliasView> {
    match observed {
        None => views,
        Some(o) => {
            let observed_key = text_key(o.name@, false);
            let with_name = if text_key(target_name, false) != observed_key && !known.contains(
                observed_key,
            ) {
                pushed_alias_views(views, other_alias_view(o.name@), target_name)
            } else {
                views
            };
            observed_aliases_scan(with_name, o.aliases@, target_name, known)
        },
    }
}

pub fn merge_observed_identity_aliases(
    target: &mut CharacterIdentity,
    observed_identity: Option<&CharacterIdentity>,
    known_name_keys: &Vec<String>,
)
    ensures
        final(target).name == old(target).name,
        alias_views(final(target).aliases@) == observed_merge(
            alias_views(old(target).aliases@),
            old(target).name@,
            opt_identity(observed_identity),
            keys_view(known_name_keys@),
        ),
{
    let observed = match observed_identity {
        Some(o) => o,
        None => return ,
    };
    let ghost known = keys_view(known_name_keys@);
    let name = target.name.clone();
    let target_key = normalized_text_key(name.as_str());
    let observed_key = normalized_text_key(observed.name.as_str());
    if !str_eq(target_key.as_str(), observed_key.as_str()) && !contains_key(
        known_name_keys,
        observed_key.as_str(),
    ) {
        let alias = CharacterAlias {
            text: observed.name.clone(),
            alias_type: owned("other_alias"),
            alias_label: owned("T\u{ea}n g\u{1ecd}i kh\u{e1}c"),
            is_primary: false,
            evidence: Vec::new(),
        };
        proof {
            assert(alias_view(alias) =~= other_alias_view(observed.name@));
        }
        push_alias(&mut target.aliases, alias, name.as_str());
    }
    let ghost with_name = alias_views(target.aliases@);
    let mut j: usize = 0;
    proof {
        assert(observed.aliases@.take(0) =~= Seq::<CharacterAlias>::empty());
    }
    while j < observed.aliases.len()
        invariant
            name@ == old(target).name@,
            target.name == old(target).name,
            target_key@ == text_key(name@, false),
            known == keys_view(known_name_keys@),
            0 <= j <= observed.aliases@.len(),
            alias_views(target.aliases@) == observed_aliases_scan(
                with_name,
                observed.aliases@.take(j as int),
                name@,
                known,
            ),
        decreases observed.aliases@.len() - j,
    {
        proof {
            assert(observed.aliases@.take(j + 1).drop_last() =~= observed.aliases@.take(j as int));
        }
        let alias = &observed.aliases[j];
        if is_persistable_character_alias_type(alias.alias_type.as_str()) {
            let key = normalized_text_key(alias.text.as_str());
            if !(contains_key(known_name_keys, key.as_str()) && !str_eq(
                key.as_str(),
                target_key.as_str(),
            )) {
                push_alias(&mut target.aliases, clone_alias(alias), name.as_str());
            }
        }
        j += 1;
    }
    proof {
        assert(observed.aliases@.take(j as int) =~= observed.aliases@);
    }
}

/// The aliases a new character keeps: of a persistable type, and naming no
/// other known character.
pub open spec fn sanitized_scan(
    views: Seq<AliasView>,
    aliases: Seq<CharacterAlias>,
    name: Seq<char>,
    known: Seq<Seq<char>>,
) -> Seq<AliasView>
    decreases aliases.len(),
{
    if aliases.len() == 0 {
        views
    } else {
        let prev = sanitized_scan(views, aliases.drop_last(), name, known);
        let a = aliases.last();
        let key = text_key(a.text@, false);
        if !is_persistable_alias_type(alias_type_of(a.alias_type@)) {
            prev
        } else if known.contains(key) && key != text_key(name, false) {
            prev
        } else {
            pushed_alias_views(prev, alias_view(a), name)
        }
    }
}

pub fn sanitize_new_character_identity(
    identity: CharacterIdentity,
    db_records: &Vec<StoryExtractionRecordView>,
    working_document: &StoryExtractionDocument,
) -> (r: CharacterIdentity)
    ensures
        r.name == identity.name,
        alias_views(r.aliases@) == sanitized_scan(
            seq![],
            identity.aliases@,
            identity.name@,
            known_name_keys(db_records@, working_document.records@),
        ),
{
    let known = known_character_name_keys(db_records, working_document);
    let name_key = normalized_text_key(identity.name.as_str());
    let mut aliases: Vec<CharacterAlias> = Vec::new();
    let mut j: usize = 0;
    proof {
        assert(identity.aliases@.take(0) =~= Seq::<CharacterAlias>::empty());
        assert(alias_views(aliases@) =~= Seq::<AliasView>::empty());
    }
    while j < identity.aliases.len()
        invariant
            name_key@ == text_key(identity.name@, false),
            keys_view(known@) == known_name_keys(db_records@, working_document.records@),
            0 <= j <= identity.aliases@.len(),
            alias_views(aliases@) == sanitized_scan(
                seq![],
                identity.aliases@.take(j as int),
                identity.name@,
                keys_view(known@),
            ),
        decreases identity.aliases@.len() - j,
    {
        proof {
            assert(identity.aliases@.take(j + 1).drop_last() =~= identity.aliases@.take(j as int));
        }
        let alias = &identity.aliases[j];
        let alias_type = normalize_character_alias_type(alias.alias_type.as_str());
        if is_persistable_character_alias_type(alias_type.as_str()) {
            let key = normalized_text_key(alias.text.as_str());
            if !(contains_key(&known, key.as_str()) && !str_eq(key.as_str(), name_key.as_str())) {
                push_alias(&mut aliases, clone_alias(alias), identity.name.as_str());
            }
        }
        j += 1;
    }
    proof {
        assert(identity.aliases@.take(j as int) =~= identity.aliases@);
    }
    CharacterIdentity { name: identity.name, aliases }
}

// ------------------------------------------------------------------------
// A list of identities, one per name.
// ------------------------------------------------------------------------
/// An identity as the specifications see it: its name and its aliases.
pub type IdentityView = (Seq<char>, Seq<AliasView>);

pub open spec fn identity_view(i: CharacterIdentity) -> IdentityView {
    (i.name@, alias_views(i.aliases@))
}

pub open spec fn identity_views(s: Seq<CharacterIdentity>) -> Seq<IdentityView> {
    s.map_values(|i: CharacterIdentity| identity_view(i))
}

/// `aliases` offered in turn to a character named `name`.
pub open spec fn pushed_all(views: Seq<AliasView>, aliases: Seq<AliasView>, name: Seq<char>) -> Seq<AliasView>
    decreases aliases.len(),
{
    if aliases.len() == 0 {
        views
    } else {
        pushed_alias_views(pushed_all(views, aliases.drop_last(), name), aliases.last(), name)
    }
}

pub open spec fn find_identity_key(ids: Seq<IdentityView>, key: Seq<char>, i: int) -> Option<int>
    decreases ids.len() - i,
{
    if i < 0 || i >= ids.len() {
        None
    } else if text_key(ids[i].0, false) == key {
        Some(i)
    } else {
        find_identity_key(ids, key, i + 1)
    }
}

/// The identities after `source` joins them: its aliases go to the first
/// identity of the same name key, else it is added.
pub open spec fn merged_into_list(ids: Seq<IdentityView>, source: IdentityView) -> Seq<IdentityView> {
    match find_identity_key(ids, text_key(source.0, false), 0) {
        Some(i) => ids.update(i, (ids[i].0, pushed_all(ids[i].1, source.1, ids[i].0))),
        None => ids.push(source),
    }
}

pub fn merge_character_identity_into_list(identities: &mut Vec<CharacterIdentity>, source: CharacterIdentity)
    ensures
        identity_views(final(identities)@) == merged_into_list(
            identity_views(old(identities)@),
            identity_view(source),
        ),
{
    let ghost ids = identity_views(identities@);
    let source_key = normalized_text_key(source.name.as_str());
    let mut i: usize = 0;
    while i < identities.len()
        invariant
            identities@ == old(identities)@,
            ids == identity_views(identities@),
            source_key@ == text_key(source.name@, false),
            0 <= i <= identities@.len(),
            find_identity_key(ids, source_key@, 0) == find_identity_key(ids, source_key@, i as int),
        decreases identities@.len() - i,
    {
        let key = normalized_text_key(identities[i].name.as_str());
        if str_eq(key.as_str(), source_key.as_str()) {
            proof {
                assert(ids[i as int] == identity_view(identities@[i as int]));
                assert(find_identity_key(ids, source_key@, i as int) == Some(i as int));
            }
            let ghost orig = identities@[i as int];
            let mut target = identities.remove(i);
            let ghost start = alias_views(target.aliases@);
            let ghost sv = alias_views(source.aliases@);
            let mut j: usize = 0;
            proof {
                assert(sv.take(0) =~= Seq::<AliasView>::empty());
            }
            while j < source.aliases.len()
                invariant
                    sv == alias_views(source.aliases@),
                    target.name == orig.name,
                    start == alias_views(orig.aliases@),
                    0 <= j <= source.aliases@.len(),
                    alias_views(target.aliases@) == pushed_all(start, sv.take(j as int), target.name@),
                decreases source.aliases@.len() - j,
            {
                proof {
                    assert(sv.take(j + 1).drop_last() =~= sv.take(j as int));
                    assert(sv.take(j + 1).last() == alias_view(source.aliases@[j as int]));
                }
                let alias = clone_alias(&source.aliases[j]);
                let name = target.name.clone();
                push_alias(&mut target.aliases, alias, name.as_str());
                j += 1;
            }
            proof {
                assert(sv.take(j as int) =~= sv);
            }
            let ghost updated = identity_view(target);
            proof {
                assert(updated == (ids[i as int].0, pushed_all(ids[i as int].1, identity_view(source).1, ids[i as int].0)));
            }
            identities.insert(i, target);
            proof {
                assert(identity_views(identities@) =~= ids.update(i as int, updated));
            }
            return ;
        }
        i += 1;
    }
    identities.push(source);
    proof {
        assert(identity_views(identities@) =~= ids.push(identity_view(source)));
    }
}

// ------------------------------------------------------------------------
// Names inside longer names.
// ------------------------------------------------------------------------
/// The folded key of `surface` is a whole-word prefix or suffix of
/// `observed_key`, and not the whole of it.
pub open spec fn is_name_phrase_of(observed_key: Seq<char>, surface: Seq<char>) -> bool {
    let k = text_key(surface, true);
    &&& k.len() > 0
    &&& k != observed_key
    &&& (has_prefix(observed_key, k.push('_')) || has_suffix(observed_key, seq!['_'] + k))
}

fn name_phrase_of(observed: &Vec<char>, surface: &str) -> (r: bool)
    ensures
        r == is_name_phrase_of(observed@, surface@),
{
    let key = normalized_folded_text_key(surface);
    let k = chars_of(key.as_str());
    if k.len() == 0 || chars_eq(&k, observed) {
        return false;
    }
    let mut prefix = chars_of(key.as_str());
    prefix.push('_');
    let mut suffix: Vec<char> = Vec::new();
    suffix.push('_');
    let mut i: usize = 0;
    while i < k.len()
        invariant
            0 <= i <= k@.len(),
            suffix@ == seq!['_'] + k@.take(i as int),
        decreases k@.len() - i,
    {
        suffix.push(k[i]);
        proof {
            assert(k@.take(i + 1) =~= k@.take(i as int).push(k@[i as int]));
        }
        i += 1;
    }
    proof {
        assert(k@.take(i as int) =~= k@);
    }
    starts_with_chars(observed, &prefix) || ends_with_chars(observed, &suffix)
}

/// The observed name is a longer phrase around the name of a stored character
/// or of a character record of the chapter.
pub open spec fn known_name_phrase(
    name: Seq<char>,
    db_records: Seq<StoryExtractionRecordView>,
    working: Seq<StoryExtractionRecordPayload>,
) -> bool {
    let o = text_key(name, true);
    &&& o.len() > 0
    &&& ((exists|i: int| 0 <= i < db_records.len() && is_name_phrase_of(o, #[trigger] db_records[i].display_name@))
        || (exists|i: int|
        0 <= i < working.len() && (#[trigger] working[i]).group_key@ == "character"@ && is_name_phrase_of(
            o,
            working[i].display_name@,
        )))
}

pub fn observed_identity_is_known_name_phrase(
    identity: &CharacterIdentity,
    db_records: &Vec<StoryExtractionRecordView>,
    working_document: &StoryExtractionDocument,
) -> (r: bool)
    ensures
        r == known_name_phrase(identity.name@, db_records@, working_document.records@),
{
    let observed_key = normalized_folded_text_key(identity.name.as_str());
    let observed = chars_of(observed_key.as_str());
    if observed.len() == 0 {
        return false;
    }
    let mut i: usize = 0;
    while i < db_records.len()
        invariant
            observed@ == text_key(identity.name@, true),
            0 <= i <= db_records@.len(),
            forall|j: int| 0 <= j < i ==> !is_name_phrase_of(observed@, #[trigger] db_records@[j].display_name@),
        decreases db_records@.len() - i,
    {
        if name_phrase_of(&observed, db_records[i].display_name.as_str()) {
            return true;
        }
        i += 1;
    }
    let records = &working_document.records;
    let mut j: usize = 0;
    while j < records.len()
        invariant
            observed@ == text_key(identity.name@, true),
            observed@.len() > 0,
            records@ == working_document.records@,
            forall|k: int| 0 <= k < db_records@.len() ==> !is_name_phrase_of(observed@, #[trigger] db_records@[k].display_name@),
            0 <= j <= records@.len(),
            forall|k: int|
                0 <= k < j ==> !((#[trigger] records@[k]).group_key@ == "character"@ && is_name_phrase_of(
                    observed@,
                    records@[k].display_name@,
                )),
        decreases records@.len() - j,
    {
        if str_eq(records[j].group_key.as_str(), "character") {
            if name_phrase_of(&observed, records[j].display_name.as_str()) {
                assert(records@[j as int].group_key@ == "character"@);
                return true;
            }
        }
        j += 1;
    }
    false
}

/// The observed name is a longer phrase around one of the candidate's surfaces.
pub open spec fn contains_candidate_surface(observed_name: Seq<char>, candidate: CharacterIdentity) -> bool {
    let o = text_key(observed_name, true);
    let surfaces = surfaces_scan(identity_surface_items(candidate)).0;
    &&& o.len() > 0
    &&& exists|i: int| 0 <= i < surfaces.len() && is_name_phrase_of(o, #[trigger] surfaces[i].0)
}

pub fn observed_identity_contains_candidate_surface(
    observed: &CharacterIdentity,
    candidate: &CharacterIdentity,
) -> (r: bool)
    ensures
        r == contains_candidate_surface(observed.name@, *candidate),
{
    let observed_key = normalized_folded_text_key(observed.name.as_str());
    let o = chars_of(observed_key.as_str());
    if o.len() == 0 {
        return false;
    }
    let surfaces = character_identity_surfaces(candidate);
    let ghost sv = surface_pair_views(surfaces@);
    let mut i: usize = 0;
    while i < surfaces.len()
        invariant
            o@ == text_key(observed.name@, true),
            sv == surface_pair_views(surfaces@),
            sv == surfaces_scan(identity_surface_items(*candidate)).0,
            0 <= i <= surfaces@.len(),
            forall|k: int| 0 <= k < i ==> !is_name_phrase_of(o@, #[trigger] sv[k].0),
        decreases surfaces@.len() - i,
    {
        if name_phrase_of(&o, surfaces[i].0.as_str()) {
            assert(sv[i as int].0 == surfaces@[i as int].0@);
            return true;
        }
        assert(sv[i as int].0 == surfaces@[i as int].0@);
        i += 1;
    }
    false
}

/// One of the identity's surfaces occurs in `text` on word boundaries.
pub open spec fn any_surface_appears(identity: CharacterIdentity, text: Seq<char>) -> bool {
    let surfaces = surfaces_scan(identity_surface_items(identity)).0;
    exists|i: int| 0 <= i < surfaces.len() && surface_occurrences(text, #[trigger] surfaces[i].0).len() > 0
}

pub fn character_identity_any_surface_appears(identity: &CharacterIdentity, text: &str) -> (r: bool)
    requires
        text@.len() < i64::MAX,
    ensures
        r == any_surface_appears(*identity, text@),
{
    let surfaces = character_identity_surfaces(identity);
    let ghost sv = surface_pair_views(surfaces@);
    let mut i: usize = 0;
    while i < surfaces.len()
        invariant
            text@.len() < i64::MAX,
            sv == surface_pair_views(surfaces@),
            sv == surfaces_scan(identity_surface_items(*identity)).0,
            0 <= i <= surfaces@.len(),
            forall|k: int| 0 <= k < i ==> surface_occurrences(text@, #[trigger] sv[k].0).len() == 0,
        decreases surfaces@.len() - i,
    {
        let found = find_surface_occurrences(text, surfaces[i].0.as_str(), "identity_review", false);
        assert(sv[i as int].0 == surfaces@[i as int].0@);
        if found.len() > 0 {
            return true;
        }
        i += 1;
    }
    false
}

// ------------------------------------------------------------------------
// Names seen only inside longer names.
// ------------------------------------------------------------------------
pub open spec fn cleaned_names(identities: Seq<CharacterIdentity>) -> Seq<Seq<char>> {
    identities.map_values(|i: CharacterIdentity| clean_surface(i.name@))
}

/// The occurrences of the names, before `j`, that contain the name at `index`.
pub open spec fn containers_upto(names: Seq<Seq<char>>, text: Seq<char>, index: int, j: int) -> Seq<
    (int, int, Seq<char>),
>
    decreases j,
{
    if j <= 0 {
        seq![]
    } else {
        let prev = containers_upto(names, text, index, j - 1);
        let other = j - 1;
        if other != index && surface_contains_other(names[other], names[index]) {
            prev + surface_occurrences(text, names[other])
        } else {
            prev
        }
    }
}

/// An occurrence lies inside a longer container.
pub open spec fn inside_longer(occ: (int, int, Seq<char>), containers: Seq<(int, int, Seq<char>)>) -> bool {
    exists|c: int|
        0 <= c < containers.len() && (#[trigger] containers[c]).0 <= occ.0 && containers[c].1 >= occ.1
            && containers[c].1 - containers[c].0 > occ.1 - occ.0
}

/// The key of the name at `index` when every occurrence of it lies inside an
/// occurrence of a longer name that contains it.
pub open spec fn removal_key(names: Seq<Seq<char>>, text: Seq<char>, index: int) -> Option<Seq<char>> {
    let key = text_key(names[index], false);
    let occs = surface_occurrences(text, names[index]);
    let containers = containers_upto(names, text, index, names.len() as int);
    if key.len() == 0 || occs.len() == 0 || containers.len() == 0 {
        None
    } else if forall|k: int| 0 <= k < occs.len() ==> inside_longer(#[trigger] occs[k], containers) {
        Some(key)
    } else {
        None
    }
}

pub open spec fn removal_keys(names: Seq<Seq<char>>, text: Seq<char>, n: int) -> Seq<Seq<char>>
    decreases n,
{
    if n <= 0 {
        seq![]
    } else {
        match removal_key(names, text, n - 1) {
            Some(k) => removal_keys(names, text, n - 1).push(k),
            None => removal_keys(names, text, n - 1),
        }
    }
}

pub open spec fn kept_identities(identities: Seq<CharacterIdentity>, keys: Seq<Seq<char>>) -> Seq<CharacterIdentity>
    decreases identities.len(),
{
    if identities.len() == 0 {
        seq![]
    } else if keys.contains(text_key(identities.last().name@, false)) {
        kept_identities(identities.drop_last(), keys)
    } else {
        kept_identities(identities.drop_last(), keys).push(identities.last())
    }
}

/// The identities of a chunk without those whose name is only ever seen
/// inside a longer name of another identity (when there are two or more).
pub open spec fn substring_filtered(identities: Seq<CharacterIdentity>, text: Seq<char>) -> Seq<CharacterIdentity> {
    if identities.len() < 2 {
        identities
    } else {
        let names = cleaned_names(identities);
        kept_identities(identities, removal_keys(names, text, identities.len() as int))
    }
}

fn inside_any(occ: &ScannedCharacterOccurrence, containers: &Vec<ScannedCharacterOccurrence>) -> (r: bool)
    ensures
        r == inside_longer(
            (occ.start_char as int, occ.end_char as int, occ.text@),
            occurrence_views(containers@),
        ),
{
    let ghost cv = occurrence_views(containers@);
    let mut c: usize = 0;
    while c < containers.len()
        invariant
            cv == occurrence_views(containers@),
            0 <= c <= containers@.len(),
            forall|k: int|
                0 <= k < c ==> !((#[trigger] cv[k]).0 <= occ.start_char && cv[k].1 >= occ.end_char && cv[k].1
                    - cv[k].0 > occ.end_char - occ.start_char),
        decreases containers@.len() - c,
    {
        let x = &containers[c];
        assert(cv[c as int] == (x.start_char as int, x.end_char as int, x.text@));
        if x.start_char <= occ.start_char && x.end_char >= occ.end_char && (x.end_char as i128
            - x.start_char as i128) > (occ.end_char as i128 - occ.start_char as i128) {
            return true;
        }
        c += 1;
    }
    false
}

pub fn filter_substring_only_identities(identities: &mut Vec<CharacterIdentity>, chunk_text: &str)
    requires
        chunk_text@.len() < i64::MAX,
    ensures
        final(identities)@ == substring_filtered(old(identities)@, chunk_text@),
{
    if identities.len() < 2 {
        return ;
    }
    let ghost ids = identities@;
    let mut names: Vec<String> = Vec::new();
    let mut i: usize = 0;
    while i < identities.len()
        invariant
            identities@ == ids,
            0 <= i <= ids.len(),
            names@.map_values(|n: String| n@) == cleaned_names(ids).take(i as int),
        decreases ids.len() - i,
    {
        let cleaned = clean_character_surface(identities[i].name.as_str());
        let ghost before = names@;
        names.push(cleaned);
        proof {
            assert(cleaned_names(ids)[i as int] == clean_surface(ids[i as int].name@));
            assert(cleaned_names(ids).take(i + 1) =~= cleaned_names(ids).take(i as int).push(cleaned@));
            assert(names@ == before.push(cleaned));
            assert(names@.map_values(|n: String| n@) =~= before.map_values(|n: String| n@).push(cleaned@));
        }
        i += 1;
    }
    let ghost nv = names@.map_values(|n: String| n@);
    proof {
        assert(nv =~= cleaned_names(ids));
    }
    let mut remove_keys: Vec<String> = Vec::new();
    let mut index: usize = 0;
    while index < names.len()
        invariant
            chunk_text@.len() < i64::MAX,
            identities@ == ids,
            nv == names@.map_values(|n: String| n@),
            nv == cleaned_names(ids),
            nv.len() == ids.len(),
            0 <= index <= names@.len(),
            remove_keys@.map_values(|k: String| k@) == removal_keys(nv, chunk_text@, index as int),
        decreases names@.len() - index,
    {
        let key = normalized_text_key(names[index].as_str());
        proof {
            assert(nv[index as int] == names@[index as int]@);
        }
        let occurrences = find_surface_occurrences(chunk_text, names[index].as_str(), "identity", false);
        let ghost ov = occurrence_views(occurrences@);
        let mut containers: Vec<ScannedCharacterOccurrence> = Vec::new();
        let mut other: usize = 0;
        proof {
            assert(occurrence_views(containers@) =~= Seq::<(int, int, Seq<char>)>::empty());
        }
        while other < names.len()
            invariant
                chunk_text@.len() < i64::MAX,
                nv == names@.map_values(|n: String| n@),
                0 <= index < names@.len(),
                0 <= other <= names@.len(),
                occurrence_views(containers@) == containers_upto(nv, chunk_text@, index as int, other as int),
            decreases names@.len() - other,
        {
            proof {
                assert(nv[other as int] == names@[other as int]@);
                assert(nv[index as int] == names@[index as int]@);
            }
            if other != index && character_surface_key_contains_other_surface(
                names[other].as_str(),
                names[index].as_str(),
            ) {
                let mut found = find_surface_occurrences(
                    chunk_text,
                    names[other].as_str(),
                    "identity_container",
                    false,
                );
                let ghost before = occurrence_views(containers@);
                let ghost fv = occurrence_views(found@);
                containers.append(&mut found);
                proof {
                    assert(occurrence_views(containers@) =~= before + fv);
                }
            }
            other += 1;
        }
        let ghost cv = occurrence_views(containers@);
        if !key.as_str().is_empty() && occurrences.len() > 0 && containers.len() > 0 {
            let mut all_inside = true;
            let mut k: usize = 0;
            while k < occurrences.len()
                invariant
                    ov == occurrence_views(occurrences@),
                    cv == occurrence_views(containers@),
                    0 <= k <= occurrences@.len(),
                    all_inside == forall|m: int| 0 <= m < k ==> inside_longer(#[trigger] ov[m], cv),
                decreases occurrences@.len() - k,
            {
                let o = &occurrences[k];
                let inside = inside_any(o, &containers);
                proof {
                    assert(ov[k as int] == (o.start_char as int, o.end_char as int, o.text@));
                    if all_inside && inside {
                        assert forall|m: int| 0 <= m < k + 1 implies inside_longer(#[trigger] ov[m], cv) by {
                            if m < k {
                            }
                        }
                    }
                }
                if !inside {
                    all_inside = false;
                }
                k += 1;
            }
            if all_inside {
                let ghost before = remove_keys@;
                remove_keys.push(key);
                proof {
                    assert(remove_keys@.map_values(|k: String| k@) =~= before.map_values(|k: String| k@).push(
                        text_key(nv[index as int], false),
                    ));
                }
            }
        }
        index += 1;
    }
    let ghost kv = remove_keys@.map_values(|k: String| k@);
    if remove_keys.len() == 0 {
        proof {
            lemma_kept_without_keys(ids, kv);
        }
        return ;
    }
    let mut rest: Vec<CharacterIdentity> = Vec::new();
    std::mem::swap(&mut rest, identities);
    let total = rest.len();
    let mut taken: usize = 0;
    proof {
        assert(ids.take(0) =~= Seq::<CharacterIdentity>::empty());
        assert(ids.skip(0) =~= ids);
    }
    while rest.len() > 0
        invariant
            ids.len() == total,
            taken + rest@.len() == ids.len(),
            rest@ == ids.skip(taken as int),
            kv == remove_keys@.map_values(|k: String| k@),
            identities@ == kept_identities(ids.take(taken as int), kv),
        decreases rest@.len(),
    {
        let identity = rest.remove(0);
        proof {
            assert(identity == ids[taken as int]);
            assert(rest@ =~= ids.skip(taken + 1));
            assert(ids.take(taken + 1).drop_last() =~= ids.take(taken as int));
        }
        let key = normalized_text_key(identity.name.as_str());
        if !crate::text::str_list_contains(&remove_keys, key.as_str()) {
            identities.push(identity);
        }
        taken += 1;
    }
    proof {
        assert(ids.take(taken as int) =~= ids);
    }
}

proof fn lemma_kept_without_keys(identities: Seq<CharacterIdentity>, keys: Seq<Seq<char>>)
    requires
        keys.len() == 0,
    ensures
        kept_identities(identities, keys) == identities,
    decreases identities.len(),
{
    if identities.len() > 0 {
        lemma_kept_without_keys(identities.drop_last(), keys);
        assert(identities =~= identities.drop_last().push(identities.last()));
    }
}


// ------------------------------------------------------------------------
// Surfaces a character is resolved by.
// ------------------------------------------------------------------------
/// A surface by which a character can be resolved: its text, its folded key,
/// and whether it is the character's name or one of its aliases.
#[derive(Debug, Clone)]
pub struct CharacterResolutionSurface {
    pub text: String,
    pub key: String,
    pub is_canonical: bool,
    pub is_alias: bool,
}

pub type ResolutionSurfaceView = (Seq<char>, Seq<char>, bool, bool);

pub open spec fn resolution_surface_views(s: Seq<CharacterResolutionSurface>) -> Seq<ResolutionSurfaceView> {
    s.map_values(|x: CharacterResolutionSurface| (x.text@, x.key@, x.is_canonical, x.is_alias))
}

/// The cleaned texts of the aliases of a persistable type.
pub open spec fn persistable_alias_surfaces(aliases: Seq<CharacterAlias>) -> Seq<(Seq<char>, bool)>
    decreases aliases.len(),
{
    if aliases.len() == 0 {
        seq![]
    } else {
        let prev = persistable_alias_surfaces(aliases.drop_last());
        let a = aliases.last();
        if is_persistable_alias_type(alias_type_of(a.alias_type@)) {
            prev.push((clean_surface(a.text@), false))
        } else {
            prev
        }
    }
}

/// The candidate surfaces of a character: its cleaned name, then its aliases.
pub open spec fn resolution_candidates(identity: CharacterIdentity) -> Seq<(Seq<char>, bool)> {
    seq![(clean_surface(identity.name@), true)] + persistable_alias_surfaces(identity.aliases@)
}

/// The candidates with a strong folded key, each key once.
pub open spec fn resolution_scan(items: Seq<(Seq<char>, bool)>) -> (Seq<ResolutionSurfaceView>, Seq<Seq<char>>)
    decreases items.len(),
{
    if items.len() == 0 {
        (seq![], seq![])
    } else {
        let (out, seen) = resolution_scan(items.drop_last());
        let (text, canonical) = items.last();
        let key = text_key(text, true);
        if strong_resolution_key(key) && !seen.contains(key) {
            (out.push((text, key, canonical, !canonical)), seen.push(key))
        } else {
            (out, seen)
        }
    }
}

fn push_resolution_surface(
    surfaces: &mut Vec<CharacterResolutionSurface>,
    seen: &mut Vec<String>,
    text: String,
    is_canonical: bool,
)
    ensures
        (resolution_surface_views(final(surfaces)@), final(seen)@.map_values(|k: String| k@)) == ({
            let (out, keys) = (resolution_surface_views(old(surfaces)@), old(seen)@.map_values(|k: String| k@));
            let key = text_key(text@, true);
            if strong_resolution_key(key) && !keys.contains(key) {
                (out.push((text@, key, is_canonical, !is_canonical)), keys.push(key))
            } else {
                (out, keys)
            }
        }),
{
    let key = normalized_folded_text_key(text.as_str());
    if is_strong_character_resolution_key(key.as_str()) && !crate::text::str_list_contains(seen, key.as_str()) {
        let ghost before = resolution_surface_views(surfaces@);
        let ghost keys = seen@.map_values(|k: String| k@);
        seen.push(key.clone());
        let surface = CharacterResolutionSurface { text, key, is_canonical, is_alias: !is_canonical };
        surfaces.push(surface);
        proof {
            assert(resolution_surface_views(surfaces@) =~= before.push((surface.text@, surface.key@, is_canonical, !is_canonical)));
            assert(seen@.map_values(|k: String| k@) =~= keys.push(surface.key@));
        }
    }
}

/// The surfaces a character is
/// resolved by: its name and its aliases of a persistable type, cleaned,
/// those with a strong folded key, each key once.
pub fn character_resolution_surface_items(identity: &CharacterIdentity) -> (r: Vec<CharacterResolutionSurface>)
    ensures
        resolution_surface_views(r@) == resolution_scan(resolution_candidates(*identity)).0,
{
    let ghost items = resolution_candidates(*identity);
    let ghost first = seq![(clean_surface(identity.name@), true)];
    let mut surfaces: Vec<CharacterResolutionSurface> = Vec::new();
    let mut seen: Vec<String> = Vec::new();
    proof {
        assert(first.drop_last() =~= Seq::<(Seq<char>, bool)>::empty());
        assert(resolution_scan(Seq::<(Seq<char>, bool)>::empty()) == (
            Seq::<ResolutionSurfaceView>::empty(),
            Seq::<Seq<char>>::empty(),
        ));
        assert(resolution_surface_views(surfaces@) =~= Seq::<ResolutionSurfaceView>::empty());
        assert(seen@.map_values(|k: String| k@) =~= Seq::<Seq<char>>::empty());
    }
    push_resolution_surface(&mut surfaces, &mut seen, clean_character_surface(identity.name.as_str()), true);
    let mut i: usize = 0;
    proof {
        assert(persistable_alias_surfaces(identity.aliases@.take(0)) =~= Seq::<(Seq<char>, bool)>::empty());
        assert(first + persistable_alias_surfaces(identity.aliases@.take(0)) =~= first);
    }
    while i < identity.aliases.len()
        invariant
            items == resolution_candidates(*identity),
            0 <= i <= identity.aliases@.len(),
            (resolution_surface_views(surfaces@), seen@.map_values(|k: String| k@)) == resolution_scan(
                seq![(clean_surface(identity.name@), true)] + persistable_alias_surfaces(identity.aliases@.take(i as int)),
            ),
        decreases identity.aliases@.len() - i,
    {
        let alias = &identity.aliases[i];
        let ghost head = seq![(clean_surface(identity.name@), true)];
        let ghost prev = persistable_alias_surfaces(identity.aliases@.take(i as int));
        proof {
            assert(identity.aliases@.take(i + 1).drop_last() =~= identity.aliases@.take(i as int));
            assert(identity.aliases@.take(i + 1).last() == *alias);
        }
        let alias_type = normalize_character_alias_type(alias.alias_type.as_str());
        if is_persistable_character_alias_type(alias_type.as_str()) {
            push_resolution_surface(&mut surfaces, &mut seen, clean_character_surface(alias.text.as_str()), false);
            proof {
                assert((head + prev.push((clean_surface(alias.text@), false))).drop_last() =~= head + prev);
            }
        }
        i += 1;
    }
    proof {
        assert(identity.aliases@.take(i as int) =~= identity.aliases@);
    }
    surfaces
}

// ------------------------------------------------------------------------
// Records named exactly as an identity.
// ------------------------------------------------------------------------
/// The first of `names` whose key is `key`, from `i` on.
pub open spec fn first_name_with_key(names: Seq<Seq<char>>, key: Seq<char>, i: int) -> Option<int>
    decreases names.len() - i,
{
    if i < 0 || i >= names.len() {
        None
    } else if text_key(names[i], false) == key {
        Some(i)
    } else {
        first_name_with_key(names, key, i + 1)
    }
}

pub open spec fn view_display_names(records: Seq<StoryExtractionRecordView>) -> Seq<Seq<char>> {
    records.map_values(|r: StoryExtractionRecordView| r.display_name@)
}

pub open spec fn payload_display_names(records: Seq<StoryExtractionRecordPayload>) -> Seq<Seq<char>> {
    records.map_values(|r: StoryExtractionRecordPayload| r.display_name@)
}

/// The first stored record whose display name has the identity's name key.
pub fn find_exact_db_character_record(identity: &CharacterIdentity, db_records: &Vec<StoryExtractionRecordView>) -> (r:
    Option<usize>)
    ensures
        opt_index(r) == first_name_with_key(
            view_display_names(db_records@),
            text_key(identity.name@, false),
            0,
        ),
{
    let ghost names = view_display_names(db_records@);
    let ghost key = text_key(identity.name@, false);
    let name_key = normalized_text_key(identity.name.as_str());
    let mut i: usize = 0;
    while i < db_records.len()
        invariant
            names == view_display_names(db_records@),
            key == text_key(identity.name@, false),
            name_key@ == key,
            0 <= i <= db_records@.len(),
            first_name_with_key(names, key, 0) == first_name_with_key(names, key, i as int),
        decreases db_records@.len() - i,
    {
        let k = normalized_text_key(db_records[i].display_name.as_str());
        assert(names[i as int] == db_records@[i as int].display_name@);
        if str_eq(k.as_str(), name_key.as_str()) {
            return Some(i);
        }
        i += 1;
    }
    None
}

/// The first record of the working document whose display name has the
/// identity's name key.
pub fn find_exact_working_character_record(identity: &CharacterIdentity, document: &StoryExtractionDocument) -> (r:
    Option<usize>)
    ensures
        opt_index(r) == first_name_with_key(
            payload_display_names(document.records@),
            text_key(identity.name@, false),
            0,
        ),
{
    let ghost names = payload_display_names(document.records@);
    let ghost key = text_key(identity.name@, false);
    let name_key = normalized_text_key(identity.name.as_str());
    let mut i: usize = 0;
    while i < document.records.len()
        invariant
            names == payload_display_names(document.records@),
            key == text_key(identity.name@, false),
            name_key@ == key,
            0 <= i <= document.records@.len(),
            first_name_with_key(names, key, 0) == first_name_with_key(names, key, i as int),
        decreases document.records@.len() - i,
    {
        let k = normalized_text_key(document.records[i].display_name.as_str());
        assert(names[i as int] == document.records@[i as int].display_name@);
        if str_eq(k.as_str(), name_key.as_str()) {
            return Some(i);
        }
        i += 1;
    }
    None
}

pub open spec fn opt_index(r: Option<usize>) -> Option<int> {
    match r {
        Some(i) => Some(i as int),
        None => None,
    }
}

} // verus!
