//! Extraction records of characters and relationships, and the rules that
//! merge a weak character record into the record of the character it is
//! probably an alias of.
use vstd::prelude::*;
use crate::characters::{alias_type_of, normalize_character_alias_type};
use crate::domain::{StoryCharacterMention, StoryEvidenceSpan};
use crate::keys::{normalize_ascii_snake_key, normalized_folded_text_key, snake_key, text_key};
use crate::text::{
    chars_eq, chars_of, is_ascii_alnum, opt_view, owned, seq_less, str_eq, str_less, trim,
    trim_str,
};

verus! {

// ------------------------------------------------------------------------
// One edit apart.
// ------------------------------------------------------------------------
/// The number of positions where two sequences of the same length differ.
pub open spec fn diff_count(a: Seq<char>, b: Seq<char>) -> nat
    decreases a.len(),
{
    if a.len() == 0 || b.len() == 0 {
        0
    } else {
        diff_count(a.drop_last(), b.drop_last()) + if a.last() != b.last() {
            1nat
        } else {
            0nat
        }
    }
}

/// `shorter` is `longer` with one char deleted.
pub open spec fn deletes_to(longer: Seq<char>, shorter: Seq<char>) -> bool {
    exists|k: int| 0 <= k < longer.len() && shorter == longer.remove(k)
}

/// At most one substitution, insertion or deletion turns `a` into `b`.
pub open spec fn one_edit_apart(a: Seq<char>, b: Seq<char>) -> bool {
    if a.len() == b.len() {
        diff_count(a, b) <= 1
    } else if a.len() + 1 == b.len() {
        deletes_to(b, a)
    } else if b.len() + 1 == a.len() {
        deletes_to(a, b)
    } else {
        false
    }
}

fn deletes_to_exec(longer: &Vec<char>, shorter: &Vec<char>) -> (r: bool)
    requires
        longer@.len() == shorter@.len() + 1,
    ensures
        r == deletes_to(longer@, shorter@),
{
    let mut s: usize = 0;
    while s < shorter.len() && shorter[s] == longer[s]
        invariant
            longer@.len() == shorter@.len() + 1,
            0 <= s <= shorter@.len(),
            forall|i: int| 0 <= i < s ==> shorter@[i] == longer@[i],
        decreases shorter@.len() - s,
    {
        s += 1;
    }
    if s == shorter.len() {
        proof {
            let k = longer@.len() - 1;
            assert(shorter@ =~= longer@.remove(k));
        }
        return true;
    }
    let j = s;
    let mut i = j;
    while i < shorter.len() && shorter[i] == longer[i + 1]
        invariant
            longer@.len() == shorter@.len() + 1,
            j <= i <= shorter@.len(),
            forall|t: int| 0 <= t < j ==> shorter@[t] == longer@[t],
            forall|t: int| j <= t < i ==> shorter@[t] == longer@[t + 1],
        decreases shorter@.len() - i,
    {
        i += 1;
    }
    if i == shorter.len() {
        proof {
            assert(shorter@ =~= longer@.remove(j as int));
        }
        return true;
    }
    proof {
        assert(shorter@[j as int] != longer@[j as int]);
        assert(shorter@[i as int] != longer@[i + 1]);
        if deletes_to(longer@, shorter@) {
            let k = choose|k: int| 0 <= k < longer@.len() && shorter@ == longer@.remove(k);
            if k > j {
                assert(shorter@[j as int] == longer@.remove(k)[j as int]);
            } else {
                assert(shorter@[i as int] == longer@.remove(k)[i as int]);
            }
        }
    }
    false
}

/// Whether at most one substitution, insertion or deletion turns `left`
/// into `right`.
pub fn one_edit_distance_or_less(left: &str, right: &str) -> (r: bool)
    ensures
        r == one_edit_apart(left@, right@),
{
    let a = chars_of(left);
    let b = chars_of(right);
    if a.len() == b.len() {
        let mut diffs: usize = 0;
        let mut i: usize = 0;
        while i < a.len()
            invariant
                a@.len() == b@.len(),
                0 <= i <= a@.len(),
                diffs == diff_count(a@.take(i as int), b@.take(i as int)),
                diffs <= i,
            decreases a@.len() - i,
        {
            proof {
                assert(a@.take(i + 1).drop_last() =~= a@.take(i as int));
                assert(b@.take(i + 1).drop_last() =~= b@.take(i as int));
            }
            if a[i] != b[i] {
                diffs += 1;
            }
            i += 1;
        }
        proof {
            assert(a@.take(a@.len() as int) =~= a@);
            assert(b@.take(b@.len() as int) =~= b@);
        }
        diffs <= 1
    } else if a.len() < b.len() {
        if b.len() - a.len() > 1 {
            return false;
        }
        deletes_to_exec(&b, &a)
    } else {
        if a.len() - b.len() > 1 {
            return false;
        }
        deletes_to_exec(&a, &b)
    }
}

/// The key has at least six chars and at least two `_`-separated words.
pub open spec fn near_alias_candidate(key: Seq<char>) -> bool {
    key.len() >= 6 && key_word_count(key) >= 2
}

/// The number of non-empty `_`-separated words of a key.
pub open spec fn key_word_count(key: Seq<char>) -> nat
    decreases key.len(),
{
    if key.len() == 0 {
        0
    } else if key.last() != '_' && (key.len() == 1 || key[key.len() - 2] == '_') {
        key_word_count(key.drop_last()) + 1
    } else {
        key_word_count(key.drop_last())
    }
}

pub fn surface_key_is_near_alias_candidate(key: &str) -> (r: bool)
    ensures
        r == near_alias_candidate(key@),
{
    let cs = chars_of(key);
    let mut words: usize = 0;
    let mut i: usize = 0;
    while i < cs.len()
        invariant
            cs@ == key@,
            0 <= i <= cs@.len(),
            words == key_word_count(cs@.take(i as int)),
            words <= i,
        decreases cs@.len() - i,
    {
        proof {
            assert(cs@.take(i + 1).drop_last() =~= cs@.take(i as int));
        }
        if cs[i] != '_' && (i == 0 || cs[i - 1] == '_') {
            words += 1;
        }
        i += 1;
    }
    proof {
        assert(cs@.take(cs@.len() as int) =~= cs@);
    }
    cs.len() >= 6 && words >= 2
}

/// Two folded keys name the same surface, or both are long multi-word keys
/// one edit apart.
pub open spec fn near_alias_keys(left: Seq<char>, right: Seq<char>) -> bool {
    left == right || (near_alias_candidate(left) && near_alias_candidate(right) && one_edit_apart(
        left,
        right,
    ))
}

pub fn folded_surface_keys_are_near_alias(left: &str, right: &str) -> (r: bool)
    ensures
        r == near_alias_keys(left@, right@),
{
    if str_eq(left, right) {
        return true;
    }
    if !surface_key_is_near_alias_candidate(left) || !surface_key_is_near_alias_candidate(right) {
        return false;
    }
    one_edit_distance_or_less(left, right)
}

// ------------------------------------------------------------------------
// Records.
// ------------------------------------------------------------------------
/// One value of a record field. The confidence the model gave it is kept by
/// the caller beside the record; none of the rules here reads it.
#[derive(Debug, Clone)]
pub struct StoryExtractionFieldValuePayload {
    pub value: String,
    pub related_character: Option<String>,
    pub relationship_type: Option<String>,
    pub relationship_label: Option<String>,
    pub relationship_direction: Option<String>,
    pub evidence: Vec<StoryEvidenceSpan>,
}

/// A field of a record, with its values.
#[derive(Debug, Clone)]
pub struct StoryExtractionFieldPayload {
    pub field_key: String,
    pub field_label: String,
    pub values: Vec<StoryExtractionFieldValuePayload>,
}

/// A character or relationship record of a chapter.
#[derive(Debug, Clone)]
pub struct StoryExtractionRecordPayload {
    pub group_key: String,
    pub group_label: String,
    pub entity_key: Option<String>,
    pub display_name: String,
    pub mentions: Vec<StoryCharacterMention>,
    pub fields: Vec<StoryExtractionFieldPayload>,
}

/// The records extracted from one chapter.
#[derive(Debug, Clone)]
pub struct StoryExtractionDocument {
    pub schema_version: String,
    pub chapter_num: i64,
    pub records: Vec<StoryExtractionRecordPayload>,
}

/// A field key that holds aliases.
pub open spec fn is_alias_field_key(key: Seq<char>) -> bool {
    key == "alias"@ || key == "aliases"@ || key == "other_alias"@ || key == "other_name"@ || key
        == "other_names"@ || key == "nickname"@
}

pub(crate) fn is_character_alias_field_key(key: &str) -> (r: bool)
    ensures
        r == is_alias_field_key(key@),
{
    str_eq(key, "alias") || str_eq(key, "aliases") || str_eq(key, "other_alias") || str_eq(
        key,
        "other_name",
    ) || str_eq(key, "other_names") || str_eq(key, "nickname")
}

/// A field whose values are kept aliases: its key is an alias type that is
/// an alias field, and that type is one that is kept.
pub open spec fn is_alias_field(field: StoryExtractionFieldPayload) -> bool {
    let key = alias_type_of(field.field_key@);
    is_alias_field_key(key) && crate::characters::is_persistable_alias_type(alias_type_of(key))
}

/// The alias texts a record holds, field by field, value by value.
pub open spec fn record_alias_texts(fields: Seq<StoryExtractionFieldPayload>) -> Seq<Seq<char>>
    decreases fields.len(),
{
    if fields.len() == 0 {
        seq![]
    } else {
        let prev = record_alias_texts(fields.drop_last());
        if is_alias_field(fields.last()) {
            prev + fields.last().values@.map_values(|v: StoryExtractionFieldValuePayload| v.value@)
        } else {
            prev
        }
    }
}

/// The texts of the aliases `aliases_from_payload_record` reads from a record.
pub fn alias_texts_from_payload_record(record: &StoryExtractionRecordPayload) -> (r: Vec<String>)
    ensures
        r@.map_values(|t: String| t@) == record_alias_texts(record.fields@),
{
    let mut out: Vec<String> = Vec::new();
    let mut i: usize = 0;
    while i < record.fields.len()
        invariant
            0 <= i <= record.fields@.len(),
            out@.map_values(|t: String| t@) == record_alias_texts(record.fields@.take(i as int)),
        decreases record.fields@.len() - i,
    {
        let field = &record.fields[i];
        proof {
            assert(record.fields@.take(i + 1).drop_last() =~= record.fields@.take(i as int));
        }
        let key = normalize_character_alias_type(field.field_key.as_str());
        if is_character_alias_field_key(key.as_str())
            && crate::characters::is_persistable_character_alias_type(
            normalize_character_alias_type(key.as_str()).as_str(),
        ) {
            let ghost base = out@.map_values(|t: String| t@);
            let ghost values = field.values@.map_values(|v: StoryExtractionFieldValuePayload| v.value@);
            let mut j: usize = 0;
            while j < field.values.len()
                invariant
                    0 <= j <= field.values@.len(),
                    values == field.values@.map_values(|v: StoryExtractionFieldValuePayload| v.value@),
                    out@.map_values(|t: String| t@) == base + values.take(j as int),
                decreases field.values@.len() - j,
            {
                let ghost before = out@.map_values(|t: String| t@);
                out.push(field.values[j].value.clone());
                proof {
                    assert(out@.map_values(|t: String| t@) =~= before.push(values[j as int]));
                    assert(values.take(j + 1) =~= values.take(j as int).push(values[j as int]));
                }
                j += 1;
            }
            proof {
                assert(values.take(values.len() as int) =~= values);
            }
        }
        i += 1;
    }
    proof {
        assert(record.fields@.take(record.fields@.len() as int) =~= record.fields@);
    }
    out
}

/// The folded keys of surfaces, non-empty, each once, in order.
pub open spec fn distinct_folded_keys(surfaces: Seq<Seq<char>>) -> Seq<Seq<char>>
    decreases surfaces.len(),
{
    if surfaces.len() == 0 {
        seq![]
    } else {
        let prev = distinct_folded_keys(surfaces.drop_last());
        let key = text_key(surfaces.last(), true);
        if key.len() > 0 && !prev.contains(key) {
            prev.push(key)
        } else {
            prev
        }
    }
}

fn folded_keys_of(surfaces: &Vec<String>) -> (r: Vec<String>)
    ensures
        r@.map_values(|t: String| t@) == distinct_folded_keys(surfaces@.map_values(|t: String| t@)),
{
    let ghost sv = surfaces@.map_values(|t: String| t@);
    let mut keys: Vec<String> = Vec::new();
    let mut i: usize = 0;
    while i < surfaces.len()
        invariant
            sv == surfaces@.map_values(|t: String| t@),
            0 <= i <= surfaces@.len(),
            keys@.map_values(|t: String| t@) == distinct_folded_keys(sv.take(i as int)),
        decreases surfaces@.len() - i,
    {
        proof {
            assert(sv.take(i + 1).drop_last() =~= sv.take(i as int));
            assert(sv.take(i + 1).last() == surfaces@[i as int]@);
        }
        let key = normalized_folded_text_key(surfaces[i].as_str());
        let ghost kv = keys@.map_values(|t: String| t@);
        let mut seen = false;
        let mut j: usize = 0;
        while j < keys.len()
            invariant
                kv == keys@.map_values(|t: String| t@),
                0 <= j <= keys@.len(),
                seen == exists|m: int| 0 <= m < j && kv[m] == key@,
            decreases keys@.len() - j,
        {
            proof {
                assert(kv[j as int] == keys@[j as int]@);
            }
            if str_eq(keys[j].as_str(), key.as_str()) {
                seen = true;
            }
            j += 1;
        }
        if !key.as_str().is_empty() && !seen {
            keys.push(key);
            proof {
                assert(keys@.map_values(|t: String| t@) =~= kv.push(key@));
            }
        } else {
            proof {
                if seen {
                    let m = choose|m: int| 0 <= m < kv.len() && kv[m] == key@;
                    assert(kv.contains(key@));
                }
            }
        }
        i += 1;
    }
    proof {
        assert(sv.take(sv.len() as int) =~= sv);
    }
    keys
}

/// The folded surface keys of a character record: its name, then its aliases.
pub open spec fn record_surface_keys(record: StoryExtractionRecordPayload) -> Seq<Seq<char>> {
    distinct_folded_keys(seq![record.display_name@] + record_alias_texts(record.fields@))
}

/// The folded surface keys of a record's aliases.
pub open spec fn record_alias_surface_keys(record: StoryExtractionRecordPayload) -> Seq<Seq<char>> {
    distinct_folded_keys(record_alias_texts(record.fields@))
}

pub fn character_record_surface_keys(record: &StoryExtractionRecordPayload) -> (r: Vec<String>)
    ensures
        r@.map_values(|t: String| t@) == record_surface_keys(*record),
{
    let mut surfaces: Vec<String> = Vec::new();
    surfaces.push(record.display_name.clone());
    let mut aliases = alias_texts_from_payload_record(record);
    let ghost av = aliases@.map_values(|t: String| t@);
    surfaces.append(&mut aliases);
    proof {
        assert(surfaces@.map_values(|t: String| t@) =~= seq![record.display_name@] + av);
    }
    folded_keys_of(&surfaces)
}

pub fn character_record_alias_surface_keys(record: &StoryExtractionRecordPayload) -> (r: Vec<String>)
    ensures
        r@.map_values(|t: String| t@) == record_alias_surface_keys(*record),
{
    let aliases = alias_texts_from_payload_record(record);
    folded_keys_of(&aliases)
}

// ------------------------------------------------------------------------
// Weak records that are probably aliases.
// ------------------------------------------------------------------------
/// The number of values in fields other than `other_alias`.
pub open spec fn non_alias_value_total(fields: Seq<StoryExtractionFieldPayload>) -> nat
    decreases fields.len(),
{
    if fields.len() == 0 {
        0
    } else {
        non_alias_value_total(fields.drop_last()) + if snake_key(fields.last().field_key@)
            != "other_alias"@ {
            fields.last().values@.len()
        } else {
            0
        }
    }
}

/// `non_alias_field_value_count` (saturating at `usize::MAX`).
pub fn non_alias_field_value_count(record: &StoryExtractionRecordPayload) -> (r: usize)
    ensures
        r as nat == if non_alias_value_total(record.fields@) > usize::MAX {
            usize::MAX as nat
        } else {
            non_alias_value_total(record.fields@)
        },
{
    let mut total: usize = 0;
    let mut i: usize = 0;
    while i < record.fields.len()
        invariant
            0 <= i <= record.fields@.len(),
            total as nat == if non_alias_value_total(record.fields@.take(i as int)) > usize::MAX {
                usize::MAX as nat
            } else {
                non_alias_value_total(record.fields@.take(i as int))
            },
        decreases record.fields@.len() - i,
    {
        proof {
            assert(record.fields@.take(i + 1).drop_last() =~= record.fields@.take(i as int));
        }
        let key = normalize_ascii_snake_key(record.fields[i].field_key.as_str());
        if !str_eq(key.as_str(), "other_alias") {
            total = total.saturating_add(record.fields[i].values.len());
        }
        i += 1;
    }
    proof {
        assert(record.fields@.take(record.fields@.len() as int) =~= record.fields@);
    }
    total
}

/// A character record with at most two mentions and no values but aliases.
pub open spec fn low_signal(record: StoryExtractionRecordPayload) -> bool {
    record.group_key@ == "character"@ && record.mentions@.len() <= 2 && non_alias_value_total(
        record.fields@,
    ) == 0
}

pub fn is_low_signal_alias_candidate_record(record: &StoryExtractionRecordPayload) -> (r: bool)
    ensures
        r == low_signal(*record),
{
    str_eq(record.group_key.as_str(), "character") && record.mentions.len() <= 2
        && non_alias_field_value_count(record) == 0
}

/// `target` says more about who it is than `source`: more mentions, other
/// values, or aliases.
pub open spec fn stronger_signal(target: StoryExtractionRecordPayload, source: StoryExtractionRecordPayload) -> bool {
    target.mentions@.len() > source.mentions@.len() || non_alias_value_total(target.fields@) > 0
        || record_alias_texts(target.fields@).len() > 0
}

pub fn target_record_has_stronger_identity_signal(
    target: &StoryExtractionRecordPayload,
    source: &StoryExtractionRecordPayload,
) -> (r: bool)
    ensures
        r == stronger_signal(*target, *source),
{
    target.mentions.len() > source.mentions.len() || non_alias_field_value_count(target) > 0
        || alias_texts_from_payload_record(target).len() > 0
}

/// A record the weak record at `source` may merge into.
pub open spec fn merge_candidate(records: Seq<StoryExtractionRecordPayload>, source: int, t: int) -> bool {
    0 <= t < records.len() && t != source && records[t].group_key@ == "character"@
        && stronger_signal(records[t], records[source])
}

/// The candidate has the weak record's name among its surfaces.
pub open spec fn exact_match(records: Seq<StoryExtractionRecordPayload>, source: int, t: int) -> bool {
    merge_candidate(records, source, t) && record_surface_keys(records[t]).contains(
        text_key(records[source].display_name@, true),
    )
}

/// The candidate has an alias one edit from the weak record's name.
pub open spec fn near_match(records: Seq<StoryExtractionRecordPayload>, source: int, t: int) -> bool {
    merge_candidate(records, source, t) && exists|k: int|
        0 <= k < record_alias_surface_keys(records[t]).len() && near_alias_keys(
            text_key(records[source].display_name@, true),
            #[trigger] record_alias_surface_keys(records[t])[k],
        )
}

/// Where a weak record merges: the first record that has its name as a
/// surface; else the first with an alias one edit from it; none when its
/// name has no key.
pub open spec fn merge_target(records: Seq<StoryExtractionRecordPayload>, source: int) -> Option<(int, Seq<char>)> {
    if text_key(records[source].display_name@, true).len() == 0 {
        None
    } else if exists|t: int| exact_match(records, source, t) {
        let t = choose|t: int|
            exact_match(records, source, t) && forall|u: int| 0 <= u < t ==> !exact_match(
                records,
                source,
                u,
            );
        Some((t, "exact_alias_surface"@))
    } else if exists|t: int| near_match(records, source, t) {
        let t = choose|t: int|
            near_match(records, source, t) && forall|u: int| 0 <= u < t ==> !near_match(
                records,
                source,
                u,
            );
        Some((t, "near_alias_surface"@))
    } else {
        None
    }
}

fn keys_contain_key(keys: &Vec<String>, key: &String) -> (r: bool)
    ensures
        r == keys@.map_values(|t: String| t@).contains(key@),
{
    let ghost kv = keys@.map_values(|t: String| t@);
    let mut i: usize = 0;
    while i < keys.len()
        invariant
            kv == keys@.map_values(|t: String| t@),
            0 <= i <= keys@.len(),
            forall|m: int| 0 <= m < i ==> kv[m] != key@,
        decreases keys@.len() - i,
    {
        if str_eq(keys[i].as_str(), key.as_str()) {
            assert(kv[i as int] == key@);
            return true;
        }
        i += 1;
    }
    false
}

fn any_near(keys: &Vec<String>, key: &String) -> (r: bool)
    ensures
        r == exists|k: int| 0 <= k < keys@.len() && near_alias_keys(key@, #[trigger] keys@[k]@),
{
    let ghost kv = keys@.map_values(|t: String| t@);
    let mut i: usize = 0;
    while i < keys.len()
        invariant
            kv == keys@.map_values(|t: String| t@),
            0 <= i <= keys@.len(),
            forall|m: int| 0 <= m < i ==> !near_alias_keys(key@, #[trigger] keys@[m]@),
        decreases keys@.len() - i,
    {
        if folded_surface_keys_are_near_alias(key.as_str(), keys[i].as_str()) {
            assert(near_alias_keys(key@, keys@[i as int]@));
            return true;
        }
        i += 1;
    }
    false
}

/// The record a weak character record is probably an alias of, if any, and
/// why.
pub fn probable_alias_record_merge_target(records: &Vec<StoryExtractionRecordPayload>, source_index: usize) -> (r: Option<(usize, &'static str)>)
    requires
        source_index < records@.len(),
    ensures
        match merge_target(records@, source_index as int) {
            Some((t, kind)) => r matches Some((i, k)) && i == t && k@ == kind,
            None => r is None,
        },
{
    let source = &records[source_index];
    let source_key = normalized_folded_text_key(source.display_name.as_str());
    if source_key.as_str().is_empty() {
        return None;
    }
    let mut exact: Option<usize> = None;
    let mut near: Option<usize> = None;
    let mut t: usize = 0;
    while t < records.len()
        invariant
            source_index < records@.len(),
            source_key@ == text_key(records@[source_index as int].display_name@, true),
            0 <= t <= records@.len(),
            match exact {
                Some(e) => e < t && exact_match(records@, source_index as int, e as int) && forall|
                    u: int,
                | 0 <= u < e ==> !exact_match(records@, source_index as int, u),
                None => forall|u: int| 0 <= u < t ==> !exact_match(records@, source_index as int, u),
            },
            match near {
                Some(e) => e < t && near_match(records@, source_index as int, e as int) && forall|
                    u: int,
                | 0 <= u < e ==> !near_match(records@, source_index as int, u),
                None => forall|u: int| 0 <= u < t ==> !near_match(records@, source_index as int, u),
            },
        decreases records@.len() - t,
    {
        let target = &records[t];
        if t != source_index && str_eq(target.group_key.as_str(), "character")
            && target_record_has_stronger_identity_signal(target, &records[source_index]) {
            if exact.is_none() {
                let keys = character_record_surface_keys(target);
                if keys_contain_key(&keys, &source_key) {
                    exact = Some(t);
                }
            }
            if near.is_none() {
                let alias_keys = character_record_alias_surface_keys(target);
                let found = any_near(&alias_keys, &source_key);
                proof {
                    let ras = record_alias_surface_keys(records@[t as int]);
                    assert(ras.len() == alias_keys@.len());
                    assert forall|k: int| 0 <= k < ras.len() implies #[trigger] ras[k]
                        == alias_keys@[k]@ by {
                        assert(alias_keys@.map_values(|x: String| x@)[k] == alias_keys@[k]@);
                    }
                    if found {
                        let k = choose|k: int|
                            0 <= k < alias_keys@.len() && near_alias_keys(
                                source_key@,
                                #[trigger] alias_keys@[k]@,
                            );
                        assert(near_alias_keys(source_key@, ras[k]));
                    }
                }
                if found {
                    near = Some(t);
                }
            }
        }
        t += 1;
    }
    match exact {
        Some(e) => {
            proof {
                let c = choose|u: int|
                    exact_match(records@, source_index as int, u) && forall|v: int|
                        0 <= v < u ==> !exact_match(records@, source_index as int, v);
                if c < e {
                } else if c > e {
                    assert(!exact_match(records@, source_index as int, e as int));
                }
            }
            Some((e, "exact_alias_surface"))
        },
        None => match near {
            Some(n) => {
                proof {
                    let c = choose|u: int|
                        near_match(records@, source_index as int, u) && forall|v: int|
                            0 <= v < u ==> !near_match(records@, source_index as int, v);
                    if c > n {
                        assert(!near_match(records@, source_index as int, n as int));
                    }
                }
                Some((n, "near_alias_surface"))
            },
            None => None,
        },
    }
}

// ------------------------------------------------------------------------
// Relationship labels.
// ------------------------------------------------------------------------
/// The non-empty `_`-separated words of a key.
pub open spec fn key_tokens(key: Seq<char>) -> Seq<Seq<char>>
    decreases key.len(),
{
    if key.len() == 0 {
        seq![]
    } else {
        let prev = key_tokens(key.drop_last());
        let c = key.last();
        if c == '_' {
            prev
        } else if key.len() >= 2 && key[key.len() - 2] != '_' && prev.len() > 0 {
            prev.update(prev.len() - 1, prev.last().push(c))
        } else {
            prev.push(seq![c])
        }
    }
}

/// The words of a label's folded key.
pub open spec fn label_tokens(label: Seq<char>) -> Seq<Seq<char>> {
    key_tokens(text_key(label, true))
}

fn key_token_list(key: &Vec<char>) -> (r: Vec<Vec<char>>)
    ensures
        r@.map_values(|t: Vec<char>| t@) == key_tokens(key@),
{
    let mut out: Vec<Vec<char>> = Vec::new();
    let mut i: usize = 0;
    proof {
        assert(out@.map_values(|t: Vec<char>| t@) =~= key_tokens(key@.take(0)));
    }
    while i < key.len()
        invariant
            0 <= i <= key@.len(),
            out@.map_values(|t: Vec<char>| t@) == key_tokens(key@.take(i as int)),
        decreases key@.len() - i,
    {
        let c = key[i];
        proof {
            assert(key@.take(i + 1).drop_last() =~= key@.take(i as int));
        }
        let ghost before = out@.map_values(|t: Vec<char>| t@);
        if c == '_' {
        } else if i >= 1 && key[i - 1] != '_' && out.len() > 0 {
            let mut last = out.pop().unwrap();
            last.push(c);
            out.push(last);
            proof {
                assert(out@.map_values(|t: Vec<char>| t@) =~= before.update(
                    before.len() - 1,
                    before.last().push(c),
                ));
            }
        } else {
            let mut w: Vec<char> = Vec::new();
            w.push(c);
            out.push(w);
            proof {
                assert(out@.map_values(|t: Vec<char>| t@) =~= before.push(seq![c]));
            }
        }
        i += 1;
    }
    proof {
        assert(key@.take(key@.len() as int) =~= key@);
    }
    out
}

/// The words of a relationship label, by its folded key.
pub fn relationship_label_tokens(value: &str) -> (r: Vec<Vec<char>>)
    ensures
        r@.map_values(|t: Vec<char>| t@) == label_tokens(value@),
{
    let key = normalized_folded_text_key(value);
    key_token_list(&chars_of(key.as_str()))
}

/// The ASCII letters and digits of a sequence.
pub open spec fn ascii_alnum_count(s: Seq<char>) -> nat
    decreases s.len(),
{
    if s.len() == 0 {
        0
    } else {
        ascii_alnum_count(s.drop_last()) + if is_ascii_alnum(s.last()) {
            1nat
        } else {
            0nat
        }
    }
}

/// How specific a label is: a thousand per word of its folded key, plus one
/// per ASCII letter or digit.
pub open spec fn label_specificity(label: Seq<char>) -> nat {
    label_tokens(label).len() * 1000 + ascii_alnum_count(text_key(label, true))
}

/// `relationship_label_specificity` (computed in `u128`, which cannot overflow).
pub fn relationship_label_specificity(value: &str) -> (r: u128)
    ensures
        r as nat == label_specificity(value@),
{
    let key = chars_of(normalized_folded_text_key(value).as_str());
    let tokens = key_token_list(&key);
    let mut count: u128 = 0;
    let mut i: usize = 0;
    while i < key.len()
        invariant
            0 <= i <= key@.len(),
            count as nat == ascii_alnum_count(key@.take(i as int)),
            count <= i,
        decreases key@.len() - i,
    {
        proof {
            assert(key@.take(i + 1).drop_last() =~= key@.take(i as int));
        }
        let c = key[i];
        if ('a' <= c && c <= 'z') || ('A' <= c && c <= 'Z') || ('0' <= c && c <= '9') {
            count += 1;
        }
        i += 1;
    }
    proof {
        assert(key@.take(key@.len() as int) =~= key@);
    }
    (tokens.len() as u128) * 1000 + count
}

/// A candidate label replaces the current one when it is not blank and the
/// current one is, or it is more specific.
pub open spec fn label_preferred(current: Seq<char>, candidate: Seq<char>) -> bool {
    trim(candidate).len() > 0 && (trim(current).len() == 0 || label_specificity(trim(candidate))
        > label_specificity(trim(current)))
}

pub fn relationship_label_prefer_candidate(current: &str, candidate: &str) -> (r: bool)
    ensures
        r == label_preferred(current@, candidate@),
{
    let current = trim_str(current);
    let candidate = trim_str(candidate);
    if candidate.as_str().is_empty() {
        return false;
    }
    if current.as_str().is_empty() {
        return true;
    }
    relationship_label_specificity(candidate.as_str()) > relationship_label_specificity(
        current.as_str(),
    )
}

/// A schema key from free text: empty for blank text, else its snake_case key.
pub open spec fn cloud_key(value: Seq<char>) -> Seq<char> {
    if trim(value).len() == 0 {
        seq![]
    } else {
        snake_key(value)
    }
}

pub fn normalize_cloud_schema_key(value: &str) -> (r: String)
    ensures
        r@ == cloud_key(value@),
{
    if crate::text::str_is_blank(value) {
        return String::new();
    }
    normalize_ascii_snake_key(value)
}

/// A candidate relationship type replaces the current one when it has a key
/// and the current one has none or a less specific one.
pub open spec fn type_preferred(current: Seq<char>, candidate: Seq<char>) -> bool {
    cloud_key(candidate).len() > 0 && (cloud_key(current).len() == 0 || label_specificity(
        cloud_key(candidate),
    ) > label_specificity(cloud_key(current)))
}

pub fn relationship_type_prefer_candidate(current: &str, candidate: &str) -> (r: bool)
    ensures
        r == type_preferred(current@, candidate@),
{
    let current = normalize_cloud_schema_key(current);
    let candidate = normalize_cloud_schema_key(candidate);
    !candidate.as_str().is_empty() && (current.as_str().is_empty()
        || relationship_label_specificity(candidate.as_str()) > relationship_label_specificity(
        current.as_str(),
    ))
}

/// Offers a label: a non-blank one replaces the current label when it is
/// preferred to it, or takes the place of none.
pub fn update_preferred_relationship_label(target: &mut Option<String>, candidate: &str)
    ensures
        opt_view(*final(target)) == if trim(candidate@).len() == 0 {
            opt_view(*old(target))
        } else {
            match *old(target) {
                Some(current) => if label_preferred(current@, trim(candidate@)) {
                    Some(trim(candidate@))
                } else {
                    Some(current@)
                },
                None => Some(trim(candidate@)),
            }
        },
{
    let candidate = trim_str(candidate);
    if candidate.as_str().is_empty() {
        return;
    }
    let replace = match target {
        Some(current) => relationship_label_prefer_candidate(current.as_str(), candidate.as_str()),
        None => true,
    };
    if replace {
        *target = Some(candidate);
    }
}

/// The tokens of `left` are a proper prefix of those of `right`.
pub open spec fn tokens_proper_prefix(left: Seq<Seq<char>>, right: Seq<Seq<char>>) -> bool {
    left.len() < right.len() && right.take(left.len() as int) == left
}

/// Two labels name the same relation: both have words, and the words are the
/// same or one label's words begin the other's.
pub open spec fn labels_overlap(left: Seq<char>, right: Seq<char>) -> bool {
    let l = label_tokens(left);
    let r = label_tokens(right);
    l.len() > 0 && r.len() > 0 && (l == r || tokens_proper_prefix(l, r) || tokens_proper_prefix(
        r,
        l,
    ))
}

fn token_prefix(left: &Vec<Vec<char>>, right: &Vec<Vec<char>>) -> (r: bool)
    requires
        left@.len() <= right@.len(),
    ensures
        r == (right@.map_values(|t: Vec<char>| t@).take(left@.len() as int) == left@.map_values(
            |t: Vec<char>| t@,
        )),
{
    let ghost lv = left@.map_values(|t: Vec<char>| t@);
    let ghost rv = right@.map_values(|t: Vec<char>| t@);
    let mut i: usize = 0;
    while i < left.len()
        invariant
            lv == left@.map_values(|t: Vec<char>| t@),
            rv == right@.map_values(|t: Vec<char>| t@),
            left@.len() <= right@.len(),
            0 <= i <= left@.len(),
            forall|k: int| 0 <= k < i ==> lv[k] == rv[k],
        decreases left@.len() - i,
    {
        if !chars_eq(&left[i], &right[i]) {
            proof {
                assert(rv.take(left@.len() as int)[i as int] != lv[i as int]);
            }
            return false;
        }
        i += 1;
    }
    proof {
        assert(rv.take(left@.len() as int) =~= lv);
    }
    true
}

pub fn relationship_labels_overlap(left: &str, right: &str) -> (r: bool)
    ensures
        r == labels_overlap(left@, right@),
{
    let l = relationship_label_tokens(left);
    let r = relationship_label_tokens(right);
    let ghost lv = l@.map_values(|t: Vec<char>| t@);
    let ghost rv = r@.map_values(|t: Vec<char>| t@);
    if l.len() == 0 || r.len() == 0 {
        return false;
    }
    if l.len() == r.len() {
        let same = token_prefix(&l, &r);
        proof {
            assert(rv.take(lv.len() as int) =~= rv);
        }
        return same;
    }
    if l.len() < r.len() {
        token_prefix(&l, &r)
    } else {
        token_prefix(&r, &l)
    }
}

pub open spec fn optional_labels_overlap(left: Option<Seq<char>>, right: Option<Seq<char>>) -> bool {
    match (left, right) {
        (Some(l), Some(r)) => labels_overlap(l, r),
        _ => false,
    }
}

pub fn optional_relationship_labels_overlap(left: &Option<String>, right: &Option<String>) -> (r: bool)
    ensures
        r == optional_labels_overlap(opt_view(*left), opt_view(*right)),
{
    match (left, right) {
        (Some(l), Some(r)) => relationship_labels_overlap(l.as_str(), r.as_str()),
        _ => false,
    }
}

// ------------------------------------------------------------------------
// Relationship values.
// ------------------------------------------------------------------------
pub open spec fn opt_text(value: Option<String>) -> Seq<char> {
    or_empty(opt_view(value))
}

pub(crate) fn opt_string(value: &Option<String>) -> (r: String)
    ensures
        r@ == opt_text(*value),
{
    match value {
        Some(v) => v.clone(),
        None => String::new(),
    }
}

/// A relationship value as the specifications see it: value, related
/// character, type, label, direction, evidence.
pub type ValueView = (Seq<char>, Option<Seq<char>>, Option<Seq<char>>, Option<Seq<char>>, Option<Seq<char>>, Seq<StoryEvidenceSpan>);

pub open spec fn value_view(v: StoryExtractionFieldValuePayload) -> ValueView {
    (
        v.value@,
        opt_view(v.related_character),
        opt_view(v.relationship_type),
        opt_view(v.relationship_label),
        opt_view(v.relationship_direction),
        v.evidence@,
    )
}

pub open spec fn value_views(vs: Seq<StoryExtractionFieldValuePayload>) -> Seq<ValueView> {
    vs.map_values(|v: StoryExtractionFieldValuePayload| value_view(v))
}

pub open spec fn or_empty(o: Option<Seq<char>>) -> Seq<char> {
    match o {
        Some(v) => v,
        None => seq![],
    }
}

/// The label a relationship value shows: its relationship label, else its
/// value, trimmed.
pub open spec fn value_label(v: ValueView) -> Seq<char> {
    match v.3 {
        Some(l) => trim(l),
        None => trim(v.0),
    }
}

pub fn relationship_value_label(value: &StoryExtractionFieldValuePayload) -> (r: String)
    ensures
        r@ == value_label(value_view(*value)),
{
    match &value.relationship_label {
        Some(l) => trim_str(l.as_str()),
        None => trim_str(value.value.as_str()),
    }
}

/// Both types have the same non-empty schema key.
pub open spec fn type_keys_match(left: Option<Seq<char>>, right: Option<Seq<char>>) -> bool {
    cloud_key(or_empty(left)).len() > 0 && cloud_key(or_empty(left)) == cloud_key(or_empty(right))
}

pub fn relationship_type_keys_match(left: &Option<String>, right: &Option<String>) -> (r: bool)
    ensures
        r == type_keys_match(opt_view(*left), opt_view(*right)),
{
    let l = normalize_cloud_schema_key(opt_string(left).as_str());
    let r = normalize_cloud_schema_key(opt_string(right).as_str());
    !l.as_str().is_empty() && str_eq(l.as_str(), r.as_str())
}

/// Two values describe the same edge: same related character and direction
/// (by key), and the same type or overlapping labels.
pub open spec fn same_edge(left: ValueView, right: ValueView) -> bool {
    &&& snake_key(or_empty(left.1)) == snake_key(or_empty(right.1))
    &&& snake_key(or_empty(left.4)) == snake_key(or_empty(right.4))
    &&& (type_keys_match(left.2, right.2) || labels_overlap(value_label(left), value_label(right)))
}

pub fn relationship_values_refer_to_same_edge(
    left: &StoryExtractionFieldValuePayload,
    right: &StoryExtractionFieldValuePayload,
) -> (r: bool)
    ensures
        r == same_edge(value_view(*left), value_view(*right)),
{
    let lr = normalize_ascii_snake_key(opt_string(&left.related_character).as_str());
    let rr = normalize_ascii_snake_key(opt_string(&right.related_character).as_str());
    let ld = normalize_ascii_snake_key(opt_string(&left.relationship_direction).as_str());
    let rd = normalize_ascii_snake_key(opt_string(&right.relationship_direction).as_str());
    if !str_eq(lr.as_str(), rr.as_str()) || !str_eq(ld.as_str(), rd.as_str()) {
        return false;
    }
    if relationship_type_keys_match(&left.relationship_type, &right.relationship_type) {
        return true;
    }
    let ll = relationship_value_label(left);
    let rl = relationship_value_label(right);
    relationship_labels_overlap(ll.as_str(), rl.as_str())
}

// ------------------------------------------------------------------------
// Evidence.
// ------------------------------------------------------------------------
/// What tells two evidence spans apart: chapter, offsets (`-1` when missing)
/// and the key of the quote.
pub open spec fn evidence_key(e: StoryEvidenceSpan) -> (int, int, int, Seq<char>) {
    (
        e.chapter_num as int,
        match e.start_char {
            Some(v) => v as int,
            None => -1,
        },
        match e.end_char {
            Some(v) => v as int,
            None => -1,
        },
        text_key(opt_text(e.quote), false),
    )
}

/// `Option` order: nothing first.
pub open spec fn opt_int_less(a: Option<i64>, b: Option<i64>) -> bool {
    match (a, b) {
        (None, Some(_)) => true,
        (Some(x), Some(y)) => x < y,
        _ => false,
    }
}

pub open spec fn opt_text_less(a: Option<String>, b: Option<String>) -> bool {
    match (a, b) {
        (None, Some(_)) => true,
        (Some(x), Some(y)) => seq_less(x@, y@),
        _ => false,
    }
}

/// Evidence order: by chapter, start, end, then quote.
pub open spec fn evidence_before(a: StoryEvidenceSpan, b: StoryEvidenceSpan) -> bool {
    a.chapter_num < b.chapter_num || (a.chapter_num == b.chapter_num && (opt_int_less(
        a.start_char,
        b.start_char,
    ) || (a.start_char == b.start_char && (opt_int_less(a.end_char, b.end_char) || (a.end_char
        == b.end_char && opt_text_less(a.quote, b.quote))))))
}

pub open spec fn evidence_insert_pos(sorted: Seq<StoryEvidenceSpan>, x: StoryEvidenceSpan, p: int) -> int
    decreases p,
{
    if p > 0 && p <= sorted.len() && evidence_before(x, sorted[p - 1]) {
        evidence_insert_pos(sorted, x, p - 1)
    } else {
        p
    }
}

/// Evidence in a stable order (`slice::sort_by` gives the same).
pub open spec fn sort_evidence_spec(s: Seq<StoryEvidenceSpan>) -> Seq<StoryEvidenceSpan>
    decreases s.len(),
{
    if s.len() == 0 {
        seq![]
    } else {
        let prev = sort_evidence_spec(s.drop_last());
        prev.insert(evidence_insert_pos(prev, s.last(), prev.len() as int), s.last())
    }
}

proof fn lemma_evidence_insert_pos(sorted: Seq<StoryEvidenceSpan>, x: StoryEvidenceSpan, p: int)
    requires
        0 <= p <= sorted.len(),
    ensures
        0 <= evidence_insert_pos(sorted, x, p) <= p,
    decreases p,
{
    if p > 0 && evidence_before(x, sorted[p - 1]) {
        lemma_evidence_insert_pos(sorted, x, p - 1);
    }
}

proof fn lemma_sort_evidence_len(s: Seq<StoryEvidenceSpan>)
    ensures
        sort_evidence_spec(s).len() == s.len(),
    decreases s.len(),
{
    if s.len() > 0 {
        lemma_sort_evidence_len(s.drop_last());
        let prev = sort_evidence_spec(s.drop_last());
        lemma_evidence_insert_pos(prev, s.last(), prev.len() as int);
    }
}

fn opt_int_less_exec(a: Option<i64>, b: Option<i64>) -> (r: bool)
    ensures
        r == opt_int_less(a, b),
{
    match (a, b) {
        (None, Some(_)) => true,
        (Some(x), Some(y)) => x < y,
        _ => false,
    }
}

fn evidence_before_exec(a: &StoryEvidenceSpan, b: &StoryEvidenceSpan) -> (r: bool)
    ensures
        r == evidence_before(*a, *b),
{
    if a.chapter_num != b.chapter_num {
        return a.chapter_num < b.chapter_num;
    }
    if a.start_char != b.start_char {
        return opt_int_less_exec(a.start_char, b.start_char);
    }
    if a.end_char != b.end_char {
        return opt_int_less_exec(a.end_char, b.end_char);
    }
    match (&a.quote, &b.quote) {
        (None, Some(_)) => true,
        (Some(x), Some(y)) => str_less(x.as_str(), y.as_str()),
        _ => false,
    }
}

/// Sorts evidence stably by chapter, offsets and quote.
pub fn sort_evidence(spans: Vec<StoryEvidenceSpan>) -> (r: Vec<StoryEvidenceSpan>)
    ensures
        r@ == sort_evidence_spec(spans@),
{
    let ghost original = spans@;
    let mut out: Vec<StoryEvidenceSpan> = Vec::new();
    let mut rest = spans;
    let mut taken: usize = 0;
    let total = rest.len();
    proof {
        assert(original.take(0) =~= Seq::<StoryEvidenceSpan>::empty());
        assert(original.skip(0) =~= original);
    }
    while rest.len() > 0
        invariant
            taken + rest@.len() == original.len(),
            original.len() == total,
            rest@ == original.skip(taken as int),
            out@ == sort_evidence_spec(original.take(taken as int)),
        decreases rest@.len(),
    {
        let x = rest.remove(0);
        proof {
            assert(x == original[taken as int]);
            assert(rest@ =~= original.skip(taken + 1));
            assert(original.take(taken + 1).drop_last() =~= original.take(taken as int));
            assert(original.take(taken + 1).last() == x);
            lemma_sort_evidence_len(original.take(taken as int));
        }
        let mut p = out.len();
        while p > 0 && evidence_before_exec(&x, &out[p - 1])
            invariant
                0 <= p <= out@.len(),
                evidence_insert_pos(out@, x, out@.len() as int) == evidence_insert_pos(
                    out@,
                    x,
                    p as int,
                ),
            decreases p,
        {
            p -= 1;
        }
        out.insert(p, x);
        taken += 1;
    }
    proof {
        assert(original.take(original.len() as int) =~= original);
    }
    out
}

/// The evidence after merging: the new spans whose key is new (each once),
/// appended, then everything sorted.
pub open spec fn evidence_added(keys: Seq<(int, int, int, Seq<char>)>, source: Seq<StoryEvidenceSpan>) -> (Seq<StoryEvidenceSpan>, Seq<(int, int, int, Seq<char>)>)
    decreases source.len(),
{
    if source.len() == 0 {
        (seq![], keys)
    } else {
        let (added, ks) = evidence_added(keys, source.drop_last());
        let k = evidence_key(source.last());
        if ks.contains(k) {
            (added, ks)
        } else {
            (added.push(source.last()), ks.push(k))
        }
    }
}

pub open spec fn merged_evidence(target: Seq<StoryEvidenceSpan>, source: Seq<StoryEvidenceSpan>) -> Seq<StoryEvidenceSpan> {
    sort_evidence_spec(
        target + evidence_added(target.map_values(|e: StoryEvidenceSpan| evidence_key(e)), source).0,
    )
}

fn evidence_key_of(e: &StoryEvidenceSpan) -> (r: (i64, i64, i64, String))
    ensures
        (r.0 as int, r.1 as int, r.2 as int, r.3@) == evidence_key(*e),
{
    let start = match e.start_char {
        Some(v) => v,
        None => -1,
    };
    let end = match e.end_char {
        Some(v) => v,
        None => -1,
    };
    (e.chapter_num, start, end, crate::keys::normalized_text_key(opt_string(&e.quote).as_str()))
}

pub open spec fn key_views(keys: Seq<(i64, i64, i64, String)>) -> Seq<(int, int, int, Seq<char>)> {
    keys.map_values(|k: (i64, i64, i64, String)| (k.0 as int, k.1 as int, k.2 as int, k.3@))
}

fn has_key(keys: &Vec<(i64, i64, i64, String)>, k: &(i64, i64, i64, String)) -> (r: bool)
    ensures
        r == key_views(keys@).contains((k.0 as int, k.1 as int, k.2 as int, k.3@)),
{
    let ghost kv = key_views(keys@);
    let ghost target = (k.0 as int, k.1 as int, k.2 as int, k.3@);
    let mut i: usize = 0;
    while i < keys.len()
        invariant
            kv == key_views(keys@),
            target == (k.0 as int, k.1 as int, k.2 as int, k.3@),
            0 <= i <= keys@.len(),
            forall|m: int| 0 <= m < i ==> kv[m] != target,
        decreases keys@.len() - i,
    {
        let e = &keys[i];
        proof {
            assert(kv[i as int] == (e.0 as int, e.1 as int, e.2 as int, e.3@));
        }
        let same_text = str_eq(e.3.as_str(), k.3.as_str());
        proof {
            assert(same_text == (e.3@ == k.3@));
        }
        if e.0 == k.0 && e.1 == k.1 && e.2 == k.2 && same_text {
            proof {
                assert(kv[i as int] == target);
            }
            return true;
        }
        proof {
            if kv[i as int] == target {
                assert(e.0 as int == k.0 as int);
                assert(e.3@ == k.3@);
            }
        }
        i += 1;
    }
    false
}

/// Adds the evidence spans of `source` to `target`, each span once.
pub fn merge_evidence_spans(target: &mut Vec<StoryEvidenceSpan>, source: Vec<StoryEvidenceSpan>)
    ensures
        final(target)@ == merged_evidence(old(target)@, source@),
{
    let ghost start = target@;
    let ghost start_keys = start.map_values(|e: StoryEvidenceSpan| evidence_key(e));
    let mut seen: Vec<(i64, i64, i64, String)> = Vec::new();
    let mut i: usize = 0;
    while i < target.len()
        invariant
            target@ == start,
            start_keys == start.map_values(|e: StoryEvidenceSpan| evidence_key(e)),
            0 <= i <= target@.len(),
            key_views(seen@) == start_keys.take(i as int),
        decreases target@.len() - i,
    {
        let k = evidence_key_of(&target[i]);
        let ghost before = key_views(seen@);
        seen.push(k);
        proof {
            assert(key_views(seen@) =~= before.push(start_keys[i as int]));
            assert(start_keys.take(i + 1) =~= start_keys.take(i as int).push(start_keys[i as int]));
        }
        i += 1;
    }
    proof {
        assert(start_keys.take(start_keys.len() as int) =~= start_keys);
    }
    let mut all: Vec<StoryEvidenceSpan> = Vec::new();
    std::mem::swap(&mut all, target);
    let ghost items = source@;
    let mut rest = source;
    let mut taken: usize = 0;
    let total = rest.len();
    proof {
        assert(items.take(0) =~= Seq::<StoryEvidenceSpan>::empty());
        assert(items.skip(0) =~= items);
        assert(all@ =~= start + evidence_added(start_keys, items.take(0)).0);
    }
    while rest.len() > 0
        invariant
            taken + rest@.len() == items.len(),
            items.len() == total,
            rest@ == items.skip(taken as int),
            all@ == start + evidence_added(start_keys, items.take(taken as int)).0,
            key_views(seen@) == evidence_added(start_keys, items.take(taken as int)).1,
        decreases rest@.len(),
    {
        let e = rest.remove(0);
        proof {
            assert(e == items[taken as int]);
            assert(rest@ =~= items.skip(taken + 1));
            assert(items.take(taken + 1).drop_last() =~= items.take(taken as int));
            assert(items.take(taken + 1).last() == e);
        }
        let k = evidence_key_of(&e);
        if !has_key(&seen, &k) {
            let ghost all_before = all@;
            let ghost keys_before = key_views(seen@);
            all.push(e);
            seen.push(k);
            proof {
                assert(all@ =~= all_before.push(e));
                assert(key_views(seen@) =~= keys_before.push(evidence_key(e)));
            }
        }
        taken += 1;
    }
    proof {
        assert(items.take(items.len() as int) =~= items);
    }
    *target = sort_evidence(all);
}

// ------------------------------------------------------------------------
// Merging relationship values.
// ------------------------------------------------------------------------
/// The value `target` becomes when `source` is merged into it: the more
/// specific label, the more specific type, and the evidence of both.
pub open spec fn merge_value_view(t: ValueView, s: ValueView) -> ValueView {
    let sl = trim(value_label(s));
    let relabel = sl.len() > 0 && label_preferred(value_label(t), sl);
    let retype = match s.2 {
        Some(st) => type_preferred(or_empty(t.2), cloud_key(st)),
        None => false,
    };
    (
        if relabel {
            sl
        } else {
            t.0
        },
        t.1,
        if retype {
            Some(cloud_key(or_empty(s.2)))
        } else {
            t.2
        },
        if relabel {
            Some(sl)
        } else {
            t.3
        },
        t.4,
        merged_evidence(t.5, s.5),
    )
}

/// `merge_relationship_field_value` (the confidence, the larger of the two,
/// is the caller's to keep).
pub fn merge_relationship_field_value(
    target: &mut StoryExtractionFieldValuePayload,
    source: StoryExtractionFieldValuePayload,
)
    ensures
        value_view(*final(target)) == merge_value_view(value_view(*old(target)), value_view(source)),
{
    let source_label = trim_str(relationship_value_label(&source).as_str());
    if !source_label.as_str().is_empty() {
        let current = relationship_value_label(target);
        if relationship_label_prefer_candidate(current.as_str(), source_label.as_str()) {
            target.value = source_label.clone();
            target.relationship_label = Some(source_label);
        }
    }
    match &source.relationship_type {
        Some(source_type) => {
            let key = normalize_cloud_schema_key(source_type.as_str());
            let current = opt_string(&target.relationship_type);
            if relationship_type_prefer_candidate(current.as_str(), key.as_str()) {
                target.relationship_type = Some(key);
            }
        },
        None => {},
    }
    merge_evidence_spans(&mut target.evidence, source.evidence);
}

/// The first value from `i` on that describes the same edge as `v`.
pub open spec fn find_edge(vals: Seq<ValueView>, v: ValueView, i: int) -> Option<int>
    decreases vals.len() - i,
{
    if i < 0 || i >= vals.len() {
        None
    } else if same_edge(vals[i], v) {
        Some(i)
    } else {
        find_edge(vals, v, i + 1)
    }
}

/// The values after merging `sources` in turn, each into the first value of
/// the same edge or appended; with the index each source went to.
pub open spec fn merge_values_view(vals: Seq<ValueView>, sources: Seq<ValueView>) -> (Seq<ValueView>, Seq<int>)
    decreases sources.len(),
{
    if sources.len() == 0 {
        (vals, seq![])
    } else {
        let (cur, idx) = merge_values_view(vals, sources.drop_last());
        let s = sources.last();
        match find_edge(cur, s, 0) {
            Some(i) => (cur.update(i, merge_value_view(cur[i], s)), idx.push(i)),
            None => (cur.push(s), idx.push(cur.len() as int)),
        }
    }
}

proof fn lemma_find_edge(vals: Seq<ValueView>, v: ValueView, i: int)
    ensures
        find_edge(vals, v, i) matches Some(k) ==> 0 <= k < vals.len(),
    decreases vals.len() - i,
{
    if i >= 0 && i < vals.len() && !same_edge(vals[i], v) {
        lemma_find_edge(vals, v, i + 1);
    }
}

fn find_same_edge(vals: &Vec<StoryExtractionFieldValuePayload>, v: &StoryExtractionFieldValuePayload) -> (r: Option<usize>)
    ensures
        match r {
            Some(i) => find_edge(value_views(vals@), value_view(*v), 0) == Some(i as int) && i
                < vals@.len(),
            None => find_edge(value_views(vals@), value_view(*v), 0) is None,
        },
{
    let ghost views = value_views(vals@);
    let mut i: usize = 0;
    while i < vals.len()
        invariant
            views == value_views(vals@),
            0 <= i <= vals@.len(),
            find_edge(views, value_view(*v), 0) == find_edge(views, value_view(*v), i as int),
        decreases vals@.len() - i,
    {
        if relationship_values_refer_to_same_edge(&vals[i], v) {
            return Some(i);
        }
        i += 1;
    }
    None
}

/// Merges each value into the field;
/// returns, for each, the index of the field value it ended in.
pub fn merge_relationship_field_values(
    field: &mut StoryExtractionFieldPayload,
    values: Vec<StoryExtractionFieldValuePayload>,
) -> (r: Vec<usize>)
    ensures
        value_views(final(field).values@) == merge_values_view(
            value_views(old(field).values@),
            value_views(values@),
        ).0,
        r@.map_values(|i: usize| i as int) == merge_values_view(
            value_views(old(field).values@),
            value_views(values@),
        ).1,
        final(field).field_key == old(field).field_key,
        final(field).field_label == old(field).field_label,
{
    let ghost start = value_views(field.values@);
    let ghost sv = value_views(values@);
    let ghost items = values@;
    let mut rest = values;
    let mut indexes: Vec<usize> = Vec::new();
    let mut taken: usize = 0;
    let total = rest.len();
    proof {
        assert(sv.take(0) =~= Seq::<ValueView>::empty());
        assert(items.skip(0) =~= items);
        assert(indexes@.map_values(|i: usize| i as int) =~= Seq::<int>::empty());
    }
    while rest.len() > 0
        invariant
            taken + rest@.len() == sv.len(),
            sv.len() == total,
            sv == value_views(items),
            rest@ == items.skip(taken as int),
            value_views(field.values@) == merge_values_view(start, sv.take(taken as int)).0,
            indexes@.map_values(|i: usize| i as int) == merge_values_view(
                start,
                sv.take(taken as int),
            ).1,
            field.field_key == old(field).field_key,
            field.field_label == old(field).field_label,
        decreases rest@.len(),
    {
        let v = rest.remove(0);
        proof {
            assert(v == items[taken as int]);
            assert(rest@ =~= items.skip(taken + 1));
            assert(sv.take(taken + 1).drop_last() =~= sv.take(taken as int));
            assert(sv.take(taken + 1).last() == value_view(v));
        }
        let ghost before = value_views(field.values@);
        let ghost idx_before = indexes@.map_values(|i: usize| i as int);
        match find_same_edge(&field.values, &v) {
            Some(i) => {
                let mut existing = field.values.remove(i);
                let ghost old_view = value_view(existing);
                merge_relationship_field_value(&mut existing, v);
                field.values.insert(i, existing);
                indexes.push(i);
                proof {
                    assert(old_view == before[i as int]);
                    assert(value_views(field.values@) =~= before.update(
                        i as int,
                        merge_value_view(before[i as int], value_view(v)),
                    ));
                    assert(indexes@.map_values(|i: usize| i as int) =~= idx_before.push(i as int));
                }
            },
            None => {
                let n = field.values.len();
                field.values.push(v);
                indexes.push(n);
                proof {
                    assert(value_views(field.values@) =~= before.push(value_view(v)));
                    assert(indexes@.map_values(|i: usize| i as int) =~= idx_before.push(n as int));
                }
            },
        }
        taken += 1;
    }
    proof {
        assert(sv.take(sv.len() as int) =~= sv);
    }
    indexes
}

} // verus!
