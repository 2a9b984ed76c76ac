//! The stable relationships already known between characters of the current
//! chapter, gathered from the relationship records of earlier chapters to
//! give the extraction pass context.
use vstd::prelude::*;
use crate::characters::{keys_contain, string_views, CharacterAlias, CharacterIdentity};
use crate::domain::{StoryCharacterMention, StoryEvidenceSpan};
use crate::keys::{normalize_ascii_snake_key, snake_key};
use crate::records::{
    cloud_key, label_preferred, normalize_cloud_schema_key, opt_string, optional_labels_overlap, or_empty,
    optional_relationship_labels_overlap, relationship_type_prefer_candidate, type_preferred,
    update_preferred_relationship_label,
};
use crate::text::{
    opt_view, owned, replace_char, replace_char_str, split_on, split_str, str_eq, trim, trim_str,
};

verus! {

/// At most this many known relationships are given as context.
pub const KNOWN_RELATIONSHIP_CONTEXT_LIMIT: usize = 24;

/// The group and entity-key prefix of relationship records.
pub const GROUP_KEY_RELATIONSHIP: &'static str = "relationship";

/// The key of the field that holds a relationship's values.
pub const FIELD_KEY_RELATIONSHIP: &'static str = "relationship";

/// A value read from the record's own character towards the related one.
pub const RELATIONSHIP_DIRECTION_SELF_TO_RELATED: &'static str = "self_to_related";

/// A value read from the related character towards the record's own one.
pub const RELATIONSHIP_DIRECTION_RELATED_TO_SELF: &'static str = "related_to_self";

/// A stored value of a field. The model's confidence is kept by the caller.
#[derive(Debug, Clone)]
pub struct StoryExtractionFieldValueView {
    pub id: String,
    pub field_id: String,
    pub value: String,
    pub related_character: Option<String>,
    pub relationship_type: Option<String>,
    pub relationship_label: Option<String>,
    pub relationship_direction: Option<String>,
    pub evidence: Vec<StoryEvidenceSpan>,
    pub created_at: String,
    pub updated_at: String,
}

/// A stored field of a record.
#[derive(Debug, Clone)]
pub struct StoryExtractionFieldView {
    pub id: String,
    pub record_id: String,
    pub field_key: String,
    pub field_label: String,
    pub values: Vec<StoryExtractionFieldValueView>,
    pub created_at: String,
    pub updated_at: String,
}

/// A stored record of a chapter.
#[derive(Debug, Clone)]
pub struct StoryExtractionRecordView {
    pub id: String,
    pub project_id: String,
    pub novel_id: String,
    pub chapter_id: String,
    pub job_id: String,
    pub run_id: String,
    pub chapter_num: i64,
    pub group_key: String,
    pub group_label: String,
    pub entity_key: Option<String>,
    pub display_name: String,
    pub prompt_schema_version: String,
    pub mentions: Vec<StoryCharacterMention>,
    pub fields: Vec<StoryExtractionFieldView>,
    pub created_at: String,
    pub updated_at: String,
}

/// A relationship known from earlier chapters.
#[derive(Debug, Clone)]
pub struct KnownRelationshipHint {
    pub left_key: String,
    pub left_name: String,
    pub right_key: String,
    pub right_name: String,
    pub relationship_type: String,
    pub left_to_right_label: Option<String>,
    pub right_to_left_label: Option<String>,
    pub evidence_chapter_nums: Vec<i64>,
}

/// A hint as the specifications see it.
pub type HintView = (
    Seq<char>,
    Seq<char>,
    Seq<char>,
    Seq<char>,
    Seq<char>,
    Option<Seq<char>>,
    Option<Seq<char>>,
    Seq<int>,
);

pub open spec fn hint_view(h: KnownRelationshipHint) -> HintView {
    (
        h.left_key@,
        h.left_name@,
        h.right_key@,
        h.right_name@,
        h.relationship_type@,
        opt_view(h.left_to_right_label),
        opt_view(h.right_to_left_label),
        h.evidence_chapter_nums@.map_values(|n: i64| n as int),
    )
}

pub open spec fn hint_views(hs: Seq<KnownRelationshipHint>) -> Seq<HintView> {
    hs.map_values(|h: KnownRelationshipHint| hint_view(h))
}

// ------------------------------------------------------------------------
// Sorted distinct chapter numbers.
// ------------------------------------------------------------------------
/// `x` put into a strictly increasing sequence, unless it is there.
pub open spec fn insert_distinct(sorted: Seq<int>, x: int) -> Seq<int>
    decreases sorted.len(),
{
    if sorted.len() == 0 {
        seq![x]
    } else if x < sorted[0] {
        seq![x] + sorted
    } else if x == sorted[0] {
        sorted
    } else {
        seq![sorted[0]] + insert_distinct(sorted.drop_first(), x)
    }
}

/// The distinct values of `s` in increasing order (`sort_unstable` then `dedup`).
pub open spec fn sorted_distinct(s: Seq<int>) -> Seq<int>
    decreases s.len(),
{
    if s.len() == 0 {
        seq![]
    } else {
        insert_distinct(sorted_distinct(s.drop_last()), s.last())
    }
}

pub open spec fn strictly_increasing(s: Seq<int>) -> bool {
    forall|i: int, j: int| 0 <= i < j < s.len() ==> s[i] < s[j]
}

proof fn lemma_insert_distinct(sorted: Seq<int>, x: int)
    requires
        strictly_increasing(sorted),
    ensures
        strictly_increasing(insert_distinct(sorted, x)),
        insert_distinct(sorted, x).to_set() == sorted.to_set().insert(x),
    decreases sorted.len(),
{
    let r = insert_distinct(sorted, x);
    if sorted.len() == 0 {
        assert(r.to_set() =~= sorted.to_set().insert(x)) by {
            assert forall|v: int| r.to_set().contains(v) <==> sorted.to_set().insert(x).contains(v) by {
                if r.contains(v) {
                    assert(r[0] == v);
                }
                if v == x {
                    assert(r[0] == x);
                }
            }
        }
    } else if x < sorted[0] {
        assert forall|i: int, j: int| 0 <= i < j < r.len() implies r[i] < r[j] by {
            if i == 0 {
                assert(r[j] == sorted[j - 1]);
                assert(sorted[0] <= sorted[j - 1] || j - 1 == 0);
            }
        }
        assert(r.to_set() =~= sorted.to_set().insert(x)) by {
            assert forall|v: int| r.to_set().contains(v) <==> sorted.to_set().insert(x).contains(v) by {
                if r.contains(v) {
                    let k = choose|k: int| 0 <= k < r.len() && r[k] == v;
                    if k > 0 {
                        assert(sorted[k - 1] == v);
                    }
                }
                if sorted.contains(v) {
                    let k = choose|k: int| 0 <= k < sorted.len() && sorted[k] == v;
                    assert(r[k + 1] == v);
                }
                if v == x {
                    assert(r[0] == x);
                }
            }
        }
    } else if x == sorted[0] {
        assert(r.to_set() =~= sorted.to_set().insert(x)) by {
            assert forall|v: int| r.to_set().contains(v) <==> sorted.to_set().insert(x).contains(v) by {
                if v == x {
                    assert(sorted[0] == x);
                }
            }
        }
    } else {
        let tail = sorted.drop_first();
        assert(strictly_increasing(tail)) by {
            assert forall|i: int, j: int| 0 <= i < j < tail.len() implies tail[i] < tail[j] by {
                assert(tail[i] == sorted[i + 1] && tail[j] == sorted[j + 1]);
            }
        }
        lemma_insert_distinct(tail, x);
        let rest = insert_distinct(tail, x);
        assert forall|i: int, j: int| 0 <= i < j < r.len() implies r[i] < r[j] by {
            if i == 0 {
                assert(r[j] == rest[j - 1]);
                assert(rest.to_set().contains(rest[j - 1]));
                assert(tail.to_set().insert(x).contains(rest[j - 1]));
                if tail.contains(rest[j - 1]) {
                    let k = choose|k: int| 0 <= k < tail.len() && tail[k] == rest[j - 1];
                    assert(sorted[k + 1] == rest[j - 1]);
                }
            } else {
                assert(r[i] == rest[i - 1] && r[j] == rest[j - 1]);
            }
        }
        assert(r.to_set() =~= sorted.to_set().insert(x)) by {
            assert forall|v: int| r.to_set().contains(v) <==> sorted.to_set().insert(x).contains(v) by {
                if r.contains(v) {
                    let k = choose|k: int| 0 <= k < r.len() && r[k] == v;
                    if k > 0 {
                        assert(rest[k - 1] == v);
                        assert(rest.to_set().contains(v));
                        if tail.contains(v) {
                            let m = choose|m: int| 0 <= m < tail.len() && tail[m] == v;
                            assert(sorted[m + 1] == v);
                        }
                    }
                }
                if sorted.contains(v) {
                    let k = choose|k: int| 0 <= k < sorted.len() && sorted[k] == v;
                    if k > 0 {
                        assert(tail[k - 1] == v);
                        assert(rest.to_set().contains(v));
                        let m = choose|m: int| 0 <= m < rest.len() && rest[m] == v;
                        assert(r[m + 1] == v);
                    }
                }
                if v == x {
                    assert(rest.to_set().contains(x));
                    let m = choose|m: int| 0 <= m < rest.len() && rest[m] == x;
                    assert(r[m + 1] == x);
                }
            }
        }
    }
}

/// The chapter numbers of a hint are increasing and are exactly those given.
pub proof fn lemma_sorted_distinct(s: Seq<int>)
    ensures
        strictly_increasing(sorted_distinct(s)),
        sorted_distinct(s).to_set() == s.to_set(),
    decreases s.len(),
{
    if s.len() == 0 {
        assert(sorted_distinct(s).to_set() =~= s.to_set());
    } else {
        lemma_sorted_distinct(s.drop_last());
        lemma_insert_distinct(sorted_distinct(s.drop_last()), s.last());
        assert(s.to_set() =~= s.drop_last().to_set().insert(s.last())) by {
            assert forall|v: int| s.to_set().contains(v) <==> s.drop_last().to_set().insert(
                s.last(),
            ).contains(v) by {
                if s.contains(v) {
                    let k = choose|k: int| 0 <= k < s.len() && s[k] == v;
                    if k < s.len() - 1 {
                        assert(s.drop_last()[k] == v);
                    }
                }
                if s.drop_last().contains(v) {
                    let k = choose|k: int| 0 <= k < s.drop_last().len() && s.drop_last()[k] == v;
                    assert(s[k] == v);
                }
                if v == s.last() {
                    assert(s[s.len() - 1] == v);
                }
            }
        }
    }
}

pub open spec fn i64_views(v: Seq<i64>) -> Seq<int> {
    v.map_values(|n: i64| n as int)
}

fn insert_distinct_exec(sorted: &mut Vec<i64>, x: i64)
    ensures
        i64_views(final(sorted)@) == insert_distinct(i64_views(old(sorted)@), x as int),
{
    let ghost start = i64_views(sorted@);
    let mut i: usize = 0;
    proof {
        assert(start.take(0) =~= Seq::<int>::empty());
        assert(start.skip(0) =~= start);
    }
    while i < sorted.len() && sorted[i] < x
        invariant
            start == i64_views(old(sorted)@),
            sorted@ == old(sorted)@,
            0 <= i <= sorted@.len(),
            insert_distinct(start, x as int) == start.take(i as int) + insert_distinct(
                start.skip(i as int),
                x as int,
            ),
        decreases sorted@.len() - i,
    {
        proof {
            let tail = start.skip(i as int);
            assert(tail[0] == sorted@[i as int] as int);
            assert(tail.drop_first() =~= start.skip(i + 1));
            assert(start.take(i + 1) =~= start.take(i as int) + seq![tail[0]]);
            assert(insert_distinct(tail, x as int) == seq![tail[0]] + insert_distinct(
                tail.drop_first(),
                x as int,
            ));
        }
        i += 1;
    }
    let ghost tail = start.skip(i as int);
    if i < sorted.len() && sorted[i] == x {
        proof {
            assert(tail[0] == x as int);
            assert(start.take(i as int) + tail =~= start);
        }
        return;
    }
    sorted.insert(i, x);
    proof {
        if i < start.len() {
            assert(tail[0] == old(sorted)@[i as int] as int);
        } else {
            assert(tail.len() == 0);
        }
        assert(insert_distinct(tail, x as int) == seq![x as int] + tail);
        assert(i64_views(sorted@) =~= start.take(i as int) + (seq![x as int] + tail));
    }
}

/// `v.sort_unstable(); v.dedup();`.
pub fn sort_dedup(values: &Vec<i64>) -> (r: Vec<i64>)
    ensures
        i64_views(r@) == sorted_distinct(i64_views(values@)),
{
    let ghost vs = i64_views(values@);
    let mut out: Vec<i64> = Vec::new();
    let mut i: usize = 0;
    proof {
        assert(i64_views(out@) =~= sorted_distinct(vs.take(0)));
    }
    while i < values.len()
        invariant
            vs == i64_views(values@),
            0 <= i <= values@.len(),
            i64_views(out@) == sorted_distinct(vs.take(i as int)),
        decreases values@.len() - i,
    {
        proof {
            assert(vs.take(i + 1).drop_last() =~= vs.take(i as int));
            assert(vs.take(i + 1).last() == values@[i as int] as int);
        }
        insert_distinct_exec(&mut out, values[i]);
        i += 1;
    }
    proof {
        assert(vs.take(vs.len() as int) =~= vs);
    }
    out
}

// ------------------------------------------------------------------------
// The characters of the current chapter.
// ------------------------------------------------------------------------
/// `keys` with the snake key of `value` added, unless that key is empty.
pub open spec fn push_context_key(keys: Seq<Seq<char>>, value: Seq<char>) -> Seq<Seq<char>> {
    if snake_key(value).len() > 0 {
        keys.push(snake_key(value))
    } else {
        keys
    }
}

pub open spec fn alias_context_keys(keys: Seq<Seq<char>>, aliases: Seq<CharacterAlias>) -> Seq<
    Seq<char>,
>
    decreases aliases.len(),
{
    if aliases.len() == 0 {
        keys
    } else {
        push_context_key(alias_context_keys(keys, aliases.drop_last()), aliases.last().text@)
    }
}

/// The keys of the names and aliases of the current chapter's characters.
pub open spec fn identity_context_keys(ids: Seq<CharacterIdentity>) -> Seq<Seq<char>>
    decreases ids.len(),
{
    if ids.len() == 0 {
        seq![]
    } else {
        alias_context_keys(
            push_context_key(identity_context_keys(ids.drop_last()), ids.last().name@),
            ids.last().aliases@,
        )
    }
}

/// Whether `key` names a character of the current chapter.
pub open spec fn is_identity_context_key(ids: Seq<CharacterIdentity>, key: Seq<char>) -> bool {
    identity_context_keys(ids).contains(key)
}

fn push_identity_context_key(keys: &mut Vec<String>, value: &str)
    ensures
        string_views(final(keys)@) == push_context_key(string_views(old(keys)@), value@),
{
    let key = normalize_ascii_snake_key(value);
    if !key.as_str().is_empty() {
        keys.push(key);
        proof {
            assert(string_views(keys@) =~= string_views(old(keys)@).push(key@));
        }
    }
}

/// The keys of the names and aliases of `identities`, empty ones left out.
pub fn current_chapter_identity_keys(identities: &Vec<CharacterIdentity>) -> (r: Vec<String>)
    ensures
        string_views(r@) == identity_context_keys(identities@),
{
    let mut keys: Vec<String> = Vec::new();
    let mut i: usize = 0;
    proof {
        assert(identities@.take(0) =~= Seq::<CharacterIdentity>::empty());
        assert(string_views(keys@) =~= Seq::<Seq<char>>::empty());
    }
    while i < identities.len()
        invariant
            0 <= i <= identities@.len(),
            string_views(keys@) == identity_context_keys(identities@.take(i as int)),
        decreases identities@.len() - i,
    {
        let identity = &identities[i];
        push_identity_context_key(&mut keys, identity.name.as_str());
        let ghost after_name = string_views(keys@);
        let mut j: usize = 0;
        proof {
            assert(identity.aliases@.take(0) =~= Seq::<CharacterAlias>::empty());
        }
        while j < identity.aliases.len()
            invariant
                0 <= j <= identity.aliases@.len(),
                string_views(keys@) == alias_context_keys(after_name, identity.aliases@.take(j as int)),
            decreases identity.aliases@.len() - j,
        {
            proof {
                assert(identity.aliases@.take(j + 1).drop_last() =~= identity.aliases@.take(j as int));
            }
            push_identity_context_key(&mut keys, identity.aliases[j].text.as_str());
            j += 1;
        }
        proof {
            assert(identity.aliases@.take(j as int) =~= identity.aliases@);
            assert(identities@.take(i + 1).drop_last() =~= identities@.take(i as int));
            assert(identities@.take(i + 1).last() == identities@[i as int]);
        }
        i += 1;
    }
    proof {
        assert(identities@.take(i as int) =~= identities@);
    }
    keys
}

// ------------------------------------------------------------------------
// The two ends of a relationship record.
// ------------------------------------------------------------------------
/// The keys of the two ends named by a record's `relationship|left|right` entity key.
pub open spec fn record_pair_keys(entity_key: Option<Seq<char>>) -> Option<(Seq<char>, Seq<char>)> {
    match entity_key {
        None => None,
        Some(e) => {
            let parts = split_on(e, '|');
            if parts.len() != 3 || parts[0] != GROUP_KEY_RELATIONSHIP@ {
                None
            } else if snake_key(parts[1]).len() == 0 || snake_key(parts[2]).len() == 0 {
                None
            } else {
                Some((snake_key(parts[1]), snake_key(parts[2])))
            }
        },
    }
}

pub fn relationship_record_pair_keys(record: &StoryExtractionRecordView) -> (r: Option<(String, String)>)
    ensures
        match r {
            Some((l, k)) => record_pair_keys(opt_view(record.entity_key)) == Some((l@, k@)),
            None => record_pair_keys(opt_view(record.entity_key)) is None,
        },
{
    let entity_key = match &record.entity_key {
        Some(e) => e,
        None => return None,
    };
    let parts = split_str(entity_key.as_str(), '|');
    proof {
        assert(parts@.map_values(|p: String| p@).len() == parts@.len());
    }
    if parts.len() != 3 {
        return None;
    }
    proof {
        assert(parts@.map_values(|p: String| p@)[0] == parts@[0]@);
        assert(parts@.map_values(|p: String| p@)[1] == parts@[1]@);
        assert(parts@.map_values(|p: String| p@)[2] == parts@[2]@);
    }
    if !str_eq(parts[0].as_str(), GROUP_KEY_RELATIONSHIP) {
        return None;
    }
    let left_key = normalize_ascii_snake_key(parts[1].as_str());
    let right_key = normalize_ascii_snake_key(parts[2].as_str());
    if left_key.as_str().is_empty() || right_key.as_str().is_empty() {
        return None;
    }
    Some((left_key, right_key))
}

/// The parts of `parts` that are not empty once trimmed, trimmed.
pub open spec fn nonempty_trimmed(parts: Seq<Seq<char>>) -> Seq<Seq<char>>
    decreases parts.len(),
{
    if parts.len() == 0 {
        seq![]
    } else if trim(parts.last()).len() > 0 {
        nonempty_trimmed(parts.drop_last()).push(trim(parts.last()))
    } else {
        nonempty_trimmed(parts.drop_last())
    }
}

/// The names shown for the two ends: the two sides of `left ↔ right`, else the
/// keys with `_` read as spaces.
pub open spec fn record_display_pair(display: Seq<char>, left_key: Seq<char>, right_key: Seq<char>) -> (
    Seq<char>,
    Seq<char>,
) {
    let parts = nonempty_trimmed(split_on(display, '\u{2194}'));
    if parts.len() == 2 {
        (parts[0], parts[1])
    } else {
        (replace_char(left_key, '_', ' '), replace_char(right_key, '_', ' '))
    }
}

pub fn relationship_record_display_pair(
    record: &StoryExtractionRecordView,
    left_key: &str,
    right_key: &str,
) -> (r: (String, String))
    ensures
        (r.0@, r.1@) == record_display_pair(record.display_name@, left_key@, right_key@),
{
    let raw = split_str(record.display_name.as_str(), '\u{2194}');
    let ghost raw_views = raw@.map_values(|p: String| p@);
    let mut parts: Vec<String> = Vec::new();
    let mut i: usize = 0;
    proof {
        assert(raw_views.take(0) =~= Seq::<Seq<char>>::empty());
        assert(string_views(parts@) =~= Seq::<Seq<char>>::empty());
    }
    while i < raw.len()
        invariant
            raw_views == raw@.map_values(|p: String| p@),
            0 <= i <= raw@.len(),
            string_views(parts@) == nonempty_trimmed(raw_views.take(i as int)),
        decreases raw@.len() - i,
    {
        proof {
            assert(raw_views.take(i + 1).drop_last() =~= raw_views.take(i as int));
            assert(raw_views.take(i + 1).last() == raw@[i as int]@);
        }
        let part = trim_str(raw[i].as_str());
        if !part.as_str().is_empty() {
            parts.push(part);
            proof {
                assert(string_views(parts@) =~= nonempty_trimmed(raw_views.take(i as int)).push(
                    part@,
                ));
            }
        }
        i += 1;
    }
    proof {
        assert(raw_views.take(i as int) =~= raw_views);
    }
    if parts.len() == 2 {
        proof {
            assert(string_views(parts@)[0] == parts@[0]@);
            assert(string_views(parts@)[1] == parts@[1]@);
        }
        let right = parts.pop().unwrap();
        let left = parts.pop().unwrap();
        return (left, right);
    }
    (replace_char_str(left_key, '_', ' '), replace_char_str(right_key, '_', ' '))
}

// ------------------------------------------------------------------------
// Which way a stored value reads between the two ends.
// ------------------------------------------------------------------------
#[derive(Debug, Clone, Copy, PartialEq, Eq)]
pub enum RelationshipPairDirection {
    LeftToRight,
    RightToLeft,
}

/// The way a value reads: its stated direction, else the end it names as related.
pub open spec fn pair_direction(
    direction: Option<Seq<char>>,
    related: Option<Seq<char>>,
    left_key: Seq<char>,
    left_name: Seq<char>,
    right_key: Seq<char>,
    right_name: Seq<char>,
) -> Option<RelationshipPairDirection> {
    let d = snake_key(or_empty(direction));
    if d == RELATIONSHIP_DIRECTION_SELF_TO_RELATED@ {
        Some(RelationshipPairDirection::LeftToRight)
    } else if d == RELATIONSHIP_DIRECTION_RELATED_TO_SELF@ {
        Some(RelationshipPairDirection::RightToLeft)
    } else {
        let related_key = snake_key(or_empty(related));
        if related_key.len() == 0 {
            None
        } else if related_key == snake_key(right_name) || related_key == right_key {
            Some(RelationshipPairDirection::LeftToRight)
        } else if related_key == snake_key(left_name) || related_key == left_key {
            Some(RelationshipPairDirection::RightToLeft)
        } else {
            None
        }
    }
}

pub fn relationship_value_pair_direction(
    value: &StoryExtractionFieldValueView,
    left_key: &str,
    left_name: &str,
    right_key: &str,
    right_name: &str,
) -> (r: Option<RelationshipPairDirection>)
    ensures
        r == pair_direction(
            opt_view(value.relationship_direction),
            opt_view(value.related_character),
            left_key@,
            left_name@,
            right_key@,
            right_name@,
        ),
{
    let direction = normalize_ascii_snake_key(opt_string(&value.relationship_direction).as_str());
    if str_eq(direction.as_str(), RELATIONSHIP_DIRECTION_SELF_TO_RELATED) {
        return Some(RelationshipPairDirection::LeftToRight);
    }
    if str_eq(direction.as_str(), RELATIONSHIP_DIRECTION_RELATED_TO_SELF) {
        return Some(RelationshipPairDirection::RightToLeft);
    }
    let related_key = normalize_ascii_snake_key(opt_string(&value.related_character).as_str());
    if related_key.as_str().is_empty() {
        return None;
    }
    if str_eq(related_key.as_str(), normalize_ascii_snake_key(right_name).as_str()) || str_eq(
        related_key.as_str(),
        right_key,
    ) {
        Some(RelationshipPairDirection::LeftToRight)
    } else if str_eq(related_key.as_str(), normalize_ascii_snake_key(left_name).as_str())
        || str_eq(related_key.as_str(), left_key) {
        Some(RelationshipPairDirection::RightToLeft)
    } else {
        None
    }
}

// ------------------------------------------------------------------------
// What the values of one record say.
// ------------------------------------------------------------------------
/// The ends of a pair: left key, left name, right key, right name.
pub type PairView = (Seq<char>, Seq<char>, Seq<char>, Seq<char>);

/// The relationship type, the two labels, and the chapters of prior evidence
/// gathered from a record's values.
pub type ScanView = (Seq<char>, Option<Seq<char>>, Option<Seq<char>>, Seq<int>);

/// The label kept after `candidate` is offered to `target`.
pub open spec fn preferred_label(target: Option<Seq<char>>, candidate: Seq<char>) -> Option<Seq<char>> {
    if trim(candidate).len() == 0 {
        target
    } else {
        match target {
            Some(current) => if label_preferred(current, trim(candidate)) {
                Some(trim(candidate))
            } else {
                Some(current)
            },
            None => Some(trim(candidate)),
        }
    }
}

/// The chapters of the evidence spans that come before chapter `current`.
pub open spec fn prior_evidence_chapters(evidence: Seq<StoryEvidenceSpan>, current: int) -> Seq<int>
    decreases evidence.len(),
{
    if evidence.len() == 0 {
        seq![]
    } else if evidence.last().chapter_num < current {
        prior_evidence_chapters(evidence.drop_last(), current).push(evidence.last().chapter_num as int)
    } else {
        prior_evidence_chapters(evidence.drop_last(), current)
    }
}

/// The label of a stored value: its relationship label, else its value, trimmed.
pub open spec fn stored_value_label(value: StoryExtractionFieldValueView) -> Seq<char> {
    match value.relationship_label {
        Some(l) => trim(l@),
        None => trim(value.value@),
    }
}

/// The relationship type a stored value names, as a schema key.
pub open spec fn stored_value_type(value: StoryExtractionFieldValueView) -> Seq<char> {
    match value.relationship_type {
        Some(t) => cloud_key(t@),
        None => seq![],
    }
}

/// One stored value taken into the scan of its record.
pub open spec fn value_step(st: ScanView, value: StoryExtractionFieldValueView, pair: PairView, current: int) -> ScanView {
    let candidate = stored_value_type(value);
    let relationship_type = if type_preferred(st.0, candidate) {
        candidate
    } else {
        st.0
    };
    let label = stored_value_label(value);
    let direction = pair_direction(
        opt_view(value.relationship_direction),
        opt_view(value.related_character),
        pair.0,
        pair.1,
        pair.2,
        pair.3,
    );
    let left_to_right = if label.len() > 0 && direction == Some(RelationshipPairDirection::LeftToRight) {
        preferred_label(st.1, label)
    } else {
        st.1
    };
    let right_to_left = if label.len() > 0 && direction == Some(RelationshipPairDirection::RightToLeft) {
        preferred_label(st.2, label)
    } else {
        st.2
    };
    (relationship_type, left_to_right, right_to_left, st.3 + prior_evidence_chapters(value.evidence@, current))
}

pub open spec fn values_scan(
    st: ScanView,
    values: Seq<StoryExtractionFieldValueView>,
    pair: PairView,
    current: int,
) -> ScanView
    decreases values.len(),
{
    if values.len() == 0 {
        st
    } else {
        value_step(values_scan(st, values.drop_last(), pair, current), values.last(), pair, current)
    }
}

/// The values of a record's relationship fields, taken in order.
pub open spec fn fields_scan(
    st: ScanView,
    fields: Seq<StoryExtractionFieldView>,
    pair: PairView,
    current: int,
) -> ScanView
    decreases fields.len(),
{
    if fields.len() == 0 {
        st
    } else if snake_key(fields.last().field_key@) == FIELD_KEY_RELATIONSHIP@ {
        values_scan(fields_scan(st, fields.drop_last(), pair, current), fields.last().values@, pair, current)
    } else {
        fields_scan(st, fields.drop_last(), pair, current)
    }
}

pub open spec fn empty_scan() -> ScanView {
    (seq![], None, None, seq![])
}

struct HintScan {
    relationship_type: String,
    left_to_right_label: Option<String>,
    right_to_left_label: Option<String>,
    evidence_chapter_nums: Vec<i64>,
}

spec fn scan_view(s: HintScan) -> ScanView {
    (
        s.relationship_type@,
        opt_view(s.left_to_right_label),
        opt_view(s.right_to_left_label),
        i64_views(s.evidence_chapter_nums@),
    )
}

fn offer_label(target: &mut Option<String>, label: &str)
    ensures
        opt_view(*final(target)) == preferred_label(opt_view(*old(target)), label@),
{
    update_preferred_relationship_label(target, label);
}

/// The chapters of the evidence spans before chapter `current`, in order.
pub fn prior_chapter_nums(evidence: &Vec<StoryEvidenceSpan>, current: i64) -> (r: Vec<i64>)
    ensures
        i64_views(r@) == prior_evidence_chapters(evidence@, current as int),
{
    let mut out: Vec<i64> = Vec::new();
    let mut i: usize = 0;
    proof {
        assert(evidence@.take(0) =~= Seq::<StoryEvidenceSpan>::empty());
        assert(i64_views(out@) =~= Seq::<int>::empty());
    }
    while i < evidence.len()
        invariant
            0 <= i <= evidence@.len(),
            i64_views(out@) == prior_evidence_chapters(evidence@.take(i as int), current as int),
        decreases evidence@.len() - i,
    {
        proof {
            assert(evidence@.take(i + 1).drop_last() =~= evidence@.take(i as int));
            assert(evidence@.take(i + 1).last() == evidence@[i as int]);
        }
        if evidence[i].chapter_num < current {
            let ghost before = out@;
            out.push(evidence[i].chapter_num);
            proof {
                assert(i64_views(out@) =~= i64_views(before).push(evidence@[i as int].chapter_num as int));
            }
        }
        i += 1;
    }
    proof {
        assert(evidence@.take(i as int) =~= evidence@);
    }
    out
}

fn stored_label(value: &StoryExtractionFieldValueView) -> (r: String)
    ensures
        r@ == stored_value_label(*value),
{
    match &value.relationship_label {
        Some(l) => trim_str(l.as_str()),
        None => trim_str(value.value.as_str()),
    }
}

fn scan_value(
    scan: &mut HintScan,
    value: &StoryExtractionFieldValueView,
    left_key: &str,
    left_name: &str,
    right_key: &str,
    right_name: &str,
    current: i64,
)
    ensures
        scan_view(*final(scan)) == value_step(
            scan_view(*old(scan)),
            *value,
            (left_key@, left_name@, right_key@, right_name@),
            current as int,
        ),
{
    let candidate = match &value.relationship_type {
        Some(t) => normalize_cloud_schema_key(t.as_str()),
        None => String::new(),
    };
    if relationship_type_prefer_candidate(scan.relationship_type.as_str(), candidate.as_str()) {
        scan.relationship_type = candidate;
    }
    let label = stored_label(value);
    if !label.as_str().is_empty() {
        match relationship_value_pair_direction(value, left_key, left_name, right_key, right_name) {
            Some(RelationshipPairDirection::LeftToRight) => {
                offer_label(&mut scan.left_to_right_label, label.as_str());
            },
            Some(RelationshipPairDirection::RightToLeft) => {
                offer_label(&mut scan.right_to_left_label, label.as_str());
            },
            None => {},
        }
    }
    let mut nums = prior_chapter_nums(&value.evidence, current);
    let ghost before = scan.evidence_chapter_nums@;
    let ghost added = nums@;
    scan.evidence_chapter_nums.append(&mut nums);
    proof {
        assert(i64_views(scan.evidence_chapter_nums@) =~= i64_views(before) + i64_views(added));
    }
}

fn scan_fields(
    scan: &mut HintScan,
    fields: &Vec<StoryExtractionFieldView>,
    left_key: &str,
    left_name: &str,
    right_key: &str,
    right_name: &str,
    current: i64,
)
    ensures
        scan_view(*final(scan)) == fields_scan(
            scan_view(*old(scan)),
            fields@,
            (left_key@, left_name@, right_key@, right_name@),
            current as int,
        ),
{
    let ghost pair = (left_key@, left_name@, right_key@, right_name@);
    let ghost start = scan_view(*scan);
    let mut i: usize = 0;
    proof {
        assert(fields@.take(0) =~= Seq::<StoryExtractionFieldView>::empty());
    }
    while i < fields.len()
        invariant
            pair == (left_key@, left_name@, right_key@, right_name@),
            start == scan_view(*old(scan)),
            0 <= i <= fields@.len(),
            scan_view(*scan) == fields_scan(start, fields@.take(i as int), pair, current as int),
        decreases fields@.len() - i,
    {
        proof {
            assert(fields@.take(i + 1).drop_last() =~= fields@.take(i as int));
            assert(fields@.take(i + 1).last() == fields@[i as int]);
        }
        let field = &fields[i];
        let key = normalize_ascii_snake_key(field.field_key.as_str());
        if str_eq(key.as_str(), FIELD_KEY_RELATIONSHIP) {
            let ghost before = scan_view(*scan);
            let mut j: usize = 0;
            proof {
                assert(field.values@.take(0) =~= Seq::<StoryExtractionFieldValueView>::empty());
            }
            while j < field.values.len()
                invariant
                    pair == (left_key@, left_name@, right_key@, right_name@),
                    0 <= j <= field.values@.len(),
                    scan_view(*scan) == values_scan(before, field.values@.take(j as int), pair, current as int),
                decreases field.values@.len() - j,
            {
                proof {
                    assert(field.values@.take(j + 1).drop_last() =~= field.values@.take(j as int));
                    assert(field.values@.take(j + 1).last() == field.values@[j as int]);
                }
                scan_value(scan, &field.values[j], left_key, left_name, right_key, right_name, current);
                j += 1;
            }
            proof {
                assert(field.values@.take(j as int) =~= field.values@);
            }
        }
        i += 1;
    }
    proof {
        assert(fields@.take(i as int) =~= fields@);
    }
}

// ------------------------------------------------------------------------
// One hint per record.
// ------------------------------------------------------------------------
/// The hint that a record of an earlier chapter gives, when both its ends are
/// among `keys` and its values name a relationship type.
pub open spec fn record_hint(record: StoryExtractionRecordView, keys: Seq<Seq<char>>, current: int) -> Option<HintView> {
    if record.chapter_num >= current {
        None
    } else {
        match record_pair_keys(opt_view(record.entity_key)) {
            None => None,
            Some((left_key, right_key)) => if !keys.contains(left_key) || !keys.contains(right_key) {
                None
            } else {
                let names = record_display_pair(record.display_name@, left_key, right_key);
                let st = fields_scan(
                    empty_scan(),
                    record.fields@,
                    (left_key, names.0, right_key, names.1),
                    current,
                );
                if st.0.len() == 0 {
                    None
                } else {
                    let nums = if st.3.len() == 0 {
                        seq![record.chapter_num as int]
                    } else {
                        st.3
                    };
                    Some((left_key, names.0, right_key, names.1, st.0, st.1, st.2, sorted_distinct(nums)))
                }
            },
        }
    }
}

pub open spec fn opt_hint_view(h: Option<KnownRelationshipHint>) -> Option<HintView> {
    match h {
        Some(h) => Some(hint_view(h)),
        None => None,
    }
}

fn known_relationship_hint(record: &StoryExtractionRecordView, keys: &Vec<String>, current: i64) -> (r:
    Option<KnownRelationshipHint>)
    ensures
        opt_hint_view(r) == record_hint(*record, string_views(keys@), current as int),
{
    if record.chapter_num >= current {
        return None;
    }
    let (left_key, right_key) = match relationship_record_pair_keys(record) {
        Some(p) => p,
        None => return None,
    };
    if !keys_contain(keys, &left_key) || !keys_contain(keys, &right_key) {
        return None;
    }
    let (left_name, right_name) = relationship_record_display_pair(
        record,
        left_key.as_str(),
        right_key.as_str(),
    );
    let mut scan = HintScan {
        relationship_type: String::new(),
        left_to_right_label: None,
        right_to_left_label: None,
        evidence_chapter_nums: Vec::new(),
    };
    proof {
        assert(scan_view(scan) =~= empty_scan());
    }
    scan_fields(
        &mut scan,
        &record.fields,
        left_key.as_str(),
        left_name.as_str(),
        right_key.as_str(),
        right_name.as_str(),
        current,
    );
    if scan.relationship_type.as_str().is_empty() {
        return None;
    }
    let HintScan { relationship_type, left_to_right_label, right_to_left_label, evidence_chapter_nums } =
        scan;
    let mut nums = evidence_chapter_nums;
    if nums.len() == 0 {
        nums.push(record.chapter_num);
        proof {
            assert(i64_views(nums@) =~= seq![record.chapter_num as int]);
        }
    }
    let evidence_chapter_nums = sort_dedup(&nums);
    Some(
        KnownRelationshipHint {
            left_key,
            left_name,
            right_key,
            right_name,
            relationship_type,
            left_to_right_label,
            right_to_left_label,
            evidence_chapter_nums,
        },
    )
}

// ------------------------------------------------------------------------
// Hints that speak of the same relationship are merged.
// ------------------------------------------------------------------------
/// Two hints speak of the same relationship: same ends, and the same type or
/// overlapping labels in one direction.
pub open spec fn hints_match(left: HintView, right: HintView) -> bool {
    left.0 == right.0 && left.2 == right.2 && (left.4 == right.4 || optional_labels_overlap(left.5, right.5)
        || optional_labels_overlap(left.6, right.6))
}

pub fn known_relationship_hints_match(left: &KnownRelationshipHint, right: &KnownRelationshipHint) -> (r:
    bool)
    ensures
        r == hints_match(hint_view(*left), hint_view(*right)),
{
    str_eq(left.left_key.as_str(), right.left_key.as_str()) && str_eq(
        left.right_key.as_str(),
        right.right_key.as_str(),
    ) && (str_eq(left.relationship_type.as_str(), right.relationship_type.as_str())
        || optional_relationship_labels_overlap(&left.left_to_right_label, &right.left_to_right_label)
        || optional_relationship_labels_overlap(&left.right_to_left_label, &right.right_to_left_label))
}

/// `target` with what `source` adds: a more specific type or label, and its chapters.
pub open spec fn merge_hint(target: HintView, source: HintView) -> HintView {
    (
        target.0,
        target.1,
        target.2,
        target.3,
        if type_preferred(target.4, source.4) {
            source.4
        } else {
            target.4
        },
        match source.5 {
            Some(l) => preferred_label(target.5, l),
            None => target.5,
        },
        match source.6 {
            Some(l) => preferred_label(target.6, l),
            None => target.6,
        },
        sorted_distinct(target.7 + source.7),
    )
}

pub fn merge_known_relationship_hint(target: &mut KnownRelationshipHint, source: KnownRelationshipHint)
    ensures
        hint_view(*final(target)) == merge_hint(hint_view(*old(target)), hint_view(source)),
{
    let ghost source_view = hint_view(source);
    let KnownRelationshipHint {
        relationship_type,
        left_to_right_label,
        right_to_left_label,
        evidence_chapter_nums,
        ..
    } = source;
    if relationship_type_prefer_candidate(target.relationship_type.as_str(), relationship_type.as_str()) {
        target.relationship_type = relationship_type;
    }
    match left_to_right_label {
        Some(label) => offer_label(&mut target.left_to_right_label, label.as_str()),
        None => {},
    }
    match right_to_left_label {
        Some(label) => offer_label(&mut target.right_to_left_label, label.as_str()),
        None => {},
    }
    let mut extra = evidence_chapter_nums;
    let ghost before = target.evidence_chapter_nums@;
    let ghost added = extra@;
    target.evidence_chapter_nums.append(&mut extra);
    proof {
        assert(i64_views(target.evidence_chapter_nums@) =~= i64_views(before) + i64_views(added));
    }
    target.evidence_chapter_nums = sort_dedup(&target.evidence_chapter_nums);
}

/// The index of the first hint from `i` on that matches `h`.
pub open spec fn first_match_from(hints: Seq<HintView>, h: HintView, i: int) -> Option<int>
    decreases hints.len() - i,
{
    if i < 0 || i >= hints.len() {
        None
    } else if hints_match(hints[i], h) {
        Some(i)
    } else {
        first_match_from(hints, h, i + 1)
    }
}

/// `h` merged into the first hint it matches, else added at the end.
pub open spec fn push_hint(hints: Seq<HintView>, h: HintView) -> Seq<HintView> {
    match first_match_from(hints, h, 0) {
        Some(i) => hints.update(i, merge_hint(hints[i], h)),
        None => hints.push(h),
    }
}

pub fn push_known_relationship_hint(hints: &mut Vec<KnownRelationshipHint>, hint: KnownRelationshipHint)
    ensures
        hint_views(final(hints)@) == push_hint(hint_views(old(hints)@), hint_view(hint)),
{
    let ghost hv = hint_views(hints@);
    let ghost h = hint_view(hint);
    let mut i: usize = 0;
    while i < hints.len()
        invariant
            hv == hint_views(hints@),
            hints@ == old(hints)@,
            h == hint_view(hint),
            0 <= i <= hints@.len(),
            first_match_from(hv, h, 0) == first_match_from(hv, h, i as int),
        decreases hints@.len() - i,
    {
        if known_relationship_hints_match(&hints[i], &hint) {
            let mut existing = hints.remove(i);
            merge_known_relationship_hint(&mut existing, hint);
            hints.insert(i, existing);
            proof {
                assert(hint_views(hints@) =~= hv.update(i as int, merge_hint(hv[i as int], h)));
            }
            return;
        }
        i += 1;
    }
    hints.push(hint);
    proof {
        assert(hint_views(hints@) =~= hv.push(h));
    }
}

// ------------------------------------------------------------------------
// The known relationships of the current chapter.
// ------------------------------------------------------------------------
/// The hints that `records` give, in order, until there are enough.
pub open spec fn known_context(records: Seq<StoryExtractionRecordView>, keys: Seq<Seq<char>>, current: int) -> Seq<
    HintView,
>
    decreases records.len(),
{
    if records.len() == 0 {
        seq![]
    } else {
        let prev = known_context(records.drop_last(), keys, current);
        if prev.len() >= KNOWN_RELATIONSHIP_CONTEXT_LIMIT {
            prev
        } else {
            match record_hint(records.last(), keys, current) {
                Some(h) => push_hint(prev, h),
                None => prev,
            }
        }
    }
}

proof fn lemma_known_context_saturated(
    records: Seq<StoryExtractionRecordView>,
    keys: Seq<Seq<char>>,
    current: int,
    i: int,
)
    requires
        0 <= i <= records.len(),
        known_context(records.take(i), keys, current).len() >= KNOWN_RELATIONSHIP_CONTEXT_LIMIT,
    ensures
        known_context(records, keys, current) == known_context(records.take(i), keys, current),
    decreases records.len(),
{
    if records.len() == i {
        assert(records.take(i) =~= records);
    } else {
        assert(records.drop_last().take(i) =~= records.take(i));
        lemma_known_context_saturated(records.drop_last(), keys, current, i);
    }
}

proof fn lemma_known_context_without_keys(records: Seq<StoryExtractionRecordView>, keys: Seq<Seq<char>>, current: int)
    requires
        keys.len() == 0,
    ensures
        known_context(records, keys, current).len() == 0,
    decreases records.len(),
{
    if records.len() > 0 {
        lemma_known_context_without_keys(records.drop_last(), keys, current);
    }
}

/// The stable relationships already known between characters of the current
/// chapter: from relationship records of earlier chapters whose two ends are
/// both among the current chapter's names and aliases, merged, at most
/// `KNOWN_RELATIONSHIP_CONTEXT_LIMIT` of them.
pub fn build_known_relationship_context(
    records: &Vec<StoryExtractionRecordView>,
    current_identities: &Vec<CharacterIdentity>,
    current_chapter_num: i64,
) -> (r: Vec<KnownRelationshipHint>)
    ensures
        hint_views(r@) == known_context(
            records@,
            identity_context_keys(current_identities@),
            current_chapter_num as int,
        ),
{
    let keys = current_chapter_identity_keys(current_identities);
    let ghost kv = string_views(keys@);
    if keys.len() == 0 {
        proof {
            lemma_known_context_without_keys(records@, kv, current_chapter_num as int);
            assert(hint_views(Seq::<KnownRelationshipHint>::empty()) =~= Seq::<HintView>::empty());
        }
        return Vec::new();
    }
    let mut hints: Vec<KnownRelationshipHint> = Vec::new();
    let mut i: usize = 0;
    proof {
        assert(records@.take(0) =~= Seq::<StoryExtractionRecordView>::empty());
        assert(hint_views(hints@) =~= Seq::<HintView>::empty());
    }
    while i < records.len() && hints.len() < KNOWN_RELATIONSHIP_CONTEXT_LIMIT
        invariant
            kv == string_views(keys@),
            kv == identity_context_keys(current_identities@),
            0 <= i <= records@.len(),
            hint_views(hints@) == known_context(records@.take(i as int), kv, current_chapter_num as int),
        decreases records@.len() - i,
    {
        proof {
            assert(records@.take(i + 1).drop_last() =~= records@.take(i as int));
            assert(records@.take(i + 1).last() == records@[i as int]);
        }
        match known_relationship_hint(&records[i], &keys, current_chapter_num) {
            Some(h) => push_known_relationship_hint(&mut hints, h),
            None => {},
        }
        i += 1;
    }
    proof {
        if i < records.len() {
            lemma_known_context_saturated(records@, kv, current_chapter_num as int, i as int);
        } else {
            assert(records@.take(i as int) =~= records@);
        }
    }
    hints
}

// ------------------------------------------------------------------------
// What every known relationship satisfies.
// ------------------------------------------------------------------------
pub open spec fn all_before(nums: Seq<int>, current: int) -> bool {
    forall|k: int| 0 <= k < nums.len() ==> #[trigger] nums[k] < current
}

/// A hint between two characters named by `keys`, with evidence only from
/// chapters before `current`, listed once each in increasing order.
pub open spec fn hint_prior_visible(h: HintView, keys: Seq<Seq<char>>, current: int) -> bool {
    &&& h.4.len() > 0
    &&& keys.contains(h.0)
    &&& keys.contains(h.2)
    &&& h.7.len() > 0
    &&& strictly_increasing(h.7)
    &&& all_before(h.7, current)
}

proof fn lemma_prior_evidence_before(evidence: Seq<StoryEvidenceSpan>, current: int)
    ensures
        all_before(prior_evidence_chapters(evidence, current), current),
    decreases evidence.len(),
{
    if evidence.len() > 0 {
        lemma_prior_evidence_before(evidence.drop_last(), current);
    }
}

proof fn lemma_values_scan_before(
    st: ScanView,
    values: Seq<StoryExtractionFieldValueView>,
    pair: PairView,
    current: int,
)
    requires
        all_before(st.3, current),
    ensures
        all_before(values_scan(st, values, pair, current).3, current),
    decreases values.len(),
{
    if values.len() > 0 {
        lemma_values_scan_before(st, values.drop_last(), pair, current);
        lemma_prior_evidence_before(values.last().evidence@, current);
        let prev = values_scan(st, values.drop_last(), pair, current);
        let added = prior_evidence_chapters(values.last().evidence@, current);
        let all = prev.3 + added;
        assert forall|k: int| 0 <= k < all.len() implies #[trigger] all[k] < current by {
            if k < prev.3.len() {
                assert(all[k] == prev.3[k]);
            } else {
                assert(all[k] == added[k - prev.3.len()]);
            }
        }
    }
}

proof fn lemma_fields_scan_before(
    st: ScanView,
    fields: Seq<StoryExtractionFieldView>,
    pair: PairView,
    current: int,
)
    requires
        all_before(st.3, current),
    ensures
        all_before(fields_scan(st, fields, pair, current).3, current),
    decreases fields.len(),
{
    if fields.len() > 0 {
        lemma_fields_scan_before(st, fields.drop_last(), pair, current);
        lemma_values_scan_before(
            fields_scan(st, fields.drop_last(), pair, current),
            fields.last().values@,
            pair,
            current,
        );
    }
}

proof fn lemma_sorted_distinct_before(s: Seq<int>, current: int)
    requires
        all_before(s, current),
    ensures
        all_before(sorted_distinct(s), current),
        strictly_increasing(sorted_distinct(s)),
        s.len() > 0 ==> sorted_distinct(s).len() > 0,
{
    lemma_sorted_distinct(s);
    let r = sorted_distinct(s);
    assert forall|k: int| 0 <= k < r.len() implies #[trigger] r[k] < current by {
        assert(r.to_set().contains(r[k]));
        assert(s.to_set().contains(r[k]));
        let j = choose|j: int| 0 <= j < s.len() && s[j] == r[k];
        assert(s[j] < current);
    }
    if s.len() > 0 {
        assert(s.to_set().contains(s[0]));
        assert(r.to_set().contains(s[0]));
    }
}

proof fn lemma_record_hint_prior_visible(record: StoryExtractionRecordView, keys: Seq<Seq<char>>, current: int)
    ensures
        record_hint(record, keys, current) matches Some(h) ==> hint_prior_visible(h, keys, current),
{
    if record.chapter_num < current {
        if let Some((left_key, right_key)) = record_pair_keys(opt_view(record.entity_key)) {
            let names = record_display_pair(record.display_name@, left_key, right_key);
            let pair = (left_key, names.0, right_key, names.1);
            lemma_fields_scan_before(empty_scan(), record.fields@, pair, current);
            let st = fields_scan(empty_scan(), record.fields@, pair, current);
            let nums = if st.3.len() == 0 {
                seq![record.chapter_num as int]
            } else {
                st.3
            };
            assert(all_before(nums, current));
            lemma_sorted_distinct_before(nums, current);
        }
    }
}

proof fn lemma_merge_prior_visible(target: HintView, source: HintView, keys: Seq<Seq<char>>, current: int)
    requires
        hint_prior_visible(target, keys, current),
        hint_prior_visible(source, keys, current),
    ensures
        hint_prior_visible(merge_hint(target, source), keys, current),
{
    let all = target.7 + source.7;
    assert forall|k: int| 0 <= k < all.len() implies #[trigger] all[k] < current by {
        if k < target.7.len() {
            assert(all[k] == target.7[k]);
        } else {
            assert(all[k] == source.7[k - target.7.len()]);
        }
    }
    lemma_sorted_distinct_before(all, current);
}

proof fn lemma_first_match_in_range(hints: Seq<HintView>, h: HintView, i: int)
    requires
        0 <= i,
    ensures
        first_match_from(hints, h, i) matches Some(j) ==> i <= j < hints.len(),
    decreases hints.len() - i,
{
    if i < hints.len() && !hints_match(hints[i], h) {
        lemma_first_match_in_range(hints, h, i + 1);
    }
}

proof fn lemma_push_prior_visible(hints: Seq<HintView>, h: HintView, keys: Seq<Seq<char>>, current: int)
    requires
        forall|k: int| 0 <= k < hints.len() ==> hint_prior_visible(#[trigger] hints[k], keys, current),
        hint_prior_visible(h, keys, current),
    ensures
        forall|k: int|
            0 <= k < push_hint(hints, h).len() ==> hint_prior_visible(
                #[trigger] push_hint(hints, h)[k],
                keys,
                current,
            ),
        push_hint(hints, h).len() <= hints.len() + 1,
{
    lemma_first_match_in_range(hints, h, 0);
    match first_match_from(hints, h, 0) {
        Some(i) => {
            lemma_merge_prior_visible(hints[i], h, keys, current);
        },
        None => {},
    }
}

proof fn lemma_known_context_prior_visible(records: Seq<StoryExtractionRecordView>, keys: Seq<Seq<char>>, current: int)
    ensures
        known_context(records, keys, current).len() <= KNOWN_RELATIONSHIP_CONTEXT_LIMIT,
        forall|k: int|
            0 <= k < known_context(records, keys, current).len() ==> hint_prior_visible(
                #[trigger] known_context(records, keys, current)[k],
                keys,
                current,
            ),
    decreases records.len(),
{
    if records.len() > 0 {
        lemma_known_context_prior_visible(records.drop_last(), keys, current);
        let prev = known_context(records.drop_last(), keys, current);
        if prev.len() < KNOWN_RELATIONSHIP_CONTEXT_LIMIT {
            lemma_record_hint_prior_visible(records.last(), keys, current);
            if let Some(h) = record_hint(records.last(), keys, current) {
                lemma_push_prior_visible(prev, h, keys, current);
            }
        }
    }
}

/// The known relationships given as context are at most
/// `KNOWN_RELATIONSHIP_CONTEXT_LIMIT`; each has a type, joins two characters
/// that the current chapter names (by name or alias), and cites only
/// chapters before the current one, each once, in increasing order. With no
/// characters in the current chapter there are none.
pub proof fn lemma_known_context_uses_prior_visible_pairs(
    records: Seq<StoryExtractionRecordView>,
    identities: Seq<CharacterIdentity>,
    current: int,
)
    ensures
        ({
            let hints = known_context(records, identity_context_keys(identities), current);
            &&& hints.len() <= KNOWN_RELATIONSHIP_CONTEXT_LIMIT
            &&& identities.len() == 0 ==> hints.len() == 0
            &&& forall|k: int|
                0 <= k < hints.len() ==> {
                    &&& hints[k].4.len() > 0
                    &&& is_identity_context_key(identities, #[trigger] hints[k].0)
                    &&& is_identity_context_key(identities, hints[k].2)
                    &&& hints[k].7.len() > 0
                    &&& strictly_increasing(hints[k].7)
                    &&& all_before(hints[k].7, current)
                }
        }),
{
    let keys = identity_context_keys(identities);
    lemma_known_context_prior_visible(records, keys, current);
    let hints = known_context(records, keys, current);
    assert forall|k: int| 0 <= k < hints.len() implies {
        &&& hints[k].4.len() > 0
        &&& is_identity_context_key(identities, #[trigger] hints[k].0)
        &&& is_identity_context_key(identities, hints[k].2)
        &&& hints[k].7.len() > 0
        &&& strictly_increasing(hints[k].7)
        &&& all_before(hints[k].7, current)
    } by {
        assert(hint_prior_visible(hints[k], keys, current));
    }
    if identities.len() == 0 {
        lemma_known_context_without_keys(records, keys, current);
    }
}

/// The records of chapters before `current`, in their order.
pub open spec fn earlier_records(records: Seq<StoryExtractionRecordView>, current: int) -> Seq<
    StoryExtractionRecordView,
>
    decreases records.len(),
{
    if records.len() == 0 {
        seq![]
    } else {
        let prev = earlier_records(records.drop_last(), current);
        if records.last().chapter_num < current {
            prev.push(records.last())
        } else {
            prev
        }
    }
}

proof fn lemma_known_context_earlier(records: Seq<StoryExtractionRecordView>, keys: Seq<Seq<char>>, current: int)
    ensures
        known_context(records, keys, current) == known_context(earlier_records(records, current), keys, current),
    decreases records.len(),
{
    if records.len() > 0 {
        let d = records.drop_last();
        lemma_known_context_earlier(d, keys, current);
        let e = earlier_records(d, current);
        if records.last().chapter_num < current {
            assert(e.push(records.last()).drop_last() =~= e);
        }
    }
}

/// The known relationships depend only on the records of earlier chapters:
/// records of the current chapter or later, added or taken away, change
/// nothing.
pub proof fn lemma_known_context_ignores_later_chapters(
    records: Seq<StoryExtractionRecordView>,
    other: Seq<StoryExtractionRecordView>,
    identities: Seq<CharacterIdentity>,
    current: int,
)
    requires
        earlier_records(records, current) == earlier_records(other, current),
    ensures
        known_context(records, identity_context_keys(identities), current) == known_context(
            other,
            identity_context_keys(identities),
            current,
        ),
{
    lemma_known_context_earlier(records, identity_context_keys(identities), current);
    lemma_known_context_earlier(other, identity_context_keys(identities), current);
}

} // verus!
