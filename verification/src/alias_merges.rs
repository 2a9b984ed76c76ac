//! Weak character records that are probably another character's alias,
//! merged into that character's record.
use vstd::prelude::*;
use crate::characters::{alias_type_of, is_persistable_alias_type};
use crate::cloud_records::{merge_record_fields, merge_record_mentions, merged_record_fields, merged_record_mentions};
use crate::cloud_relationships::{suspect_view, suspect_views, SuspectItem, SuspectView};
use crate::documents::{field_view, field_views, record_view, record_views, FieldView, RecordView};
use crate::keys::{snake_key, text_key};
use crate::records::{
    distinct_folded_keys, exact_match, is_alias_field, is_alias_field_key, is_low_signal_alias_candidate_record,
    low_signal, merge_candidate, merge_target, near_alias_keys, near_match, non_alias_value_total,
    probable_alias_record_merge_target, record_alias_surface_keys, record_alias_texts, record_surface_keys,
    stronger_signal, StoryExtractionFieldValuePayload, StoryExtractionRecordPayload, ValueView,
};
use crate::text::owned;

verus! {

// ------------------------------------------------------------------------
// The merge target, read from record views.
// ------------------------------------------------------------------------
/// The alias texts of a record's fields, field by field, value by value.
pub open spec fn view_alias_texts(fields: Seq<FieldView>) -> Seq<Seq<char>>
    decreases fields.len(),
{
    if fields.len() == 0 {
        seq![]
    } else {
        let prev = view_alias_texts(fields.drop_last());
        let key = alias_type_of(fields.last().0);
        if is_alias_field_key(key) && is_persistable_alias_type(alias_type_of(key)) {
            prev + fields.last().2.map_values(|v: ValueView| v.0)
        } else {
            prev
        }
    }
}

/// The number of values in fields other than `other_alias`.
pub open spec fn view_non_alias_total(fields: Seq<FieldView>) -> nat
    decreases fields.len(),
{
    if fields.len() == 0 {
        0
    } else {
        view_non_alias_total(fields.drop_last()) + if snake_key(fields.last().0) != "other_alias"@ {
            fields.last().2.len()
        } else {
            0
        }
    }
}

pub open spec fn view_low_signal(r: RecordView) -> bool {
    r.0 == "character"@ && r.4.len() <= 2 && view_non_alias_total(r.5) == 0
}

pub open spec fn view_stronger(target: RecordView, source: RecordView) -> bool {
    target.4.len() > source.4.len() || view_non_alias_total(target.5) > 0 || view_alias_texts(target.5).len() > 0
}

pub open spec fn view_candidate(recs: Seq<RecordView>, source: int, t: int) -> bool {
    0 <= t < recs.len() && t != source && recs[t].0 == "character"@ && view_stronger(recs[t], recs[source])
}

pub open spec fn view_exact(recs: Seq<RecordView>, source: int, t: int) -> bool {
    view_candidate(recs, source, t) && distinct_folded_keys(seq![recs[t].3] + view_alias_texts(recs[t].5)).contains(
        text_key(recs[source].3, true),
    )
}

pub open spec fn view_near(recs: Seq<RecordView>, source: int, t: int) -> bool {
    view_candidate(recs, source, t) && exists|k: int|
        0 <= k < distinct_folded_keys(view_alias_texts(recs[t].5)).len() && near_alias_keys(
            text_key(recs[source].3, true),
            #[trigger] distinct_folded_keys(view_alias_texts(recs[t].5))[k],
        )
}

/// The merge target of a record, read from the views of the records.
pub open spec fn view_merge_target(recs: Seq<RecordView>, source: int) -> Option<(int, Seq<char>)> {
    if text_key(recs[source].3, true).len() == 0 {
        None
    } else if exists|t: int| view_exact(recs, source, t) {
        let t = choose|t: int|
            view_exact(recs, source, t) && forall|u: int| 0 <= u < t ==> !view_exact(recs, source, u);
        Some((t, "exact_alias_surface"@))
    } else if exists|t: int| view_near(recs, source, t) {
        let t = choose|t: int|
            view_near(recs, source, t) && forall|u: int| 0 <= u < t ==> !view_near(recs, source, u);
        Some((t, "near_alias_surface"@))
    } else {
        None
    }
}

proof fn lemma_alias_texts(fields: Seq<crate::records::StoryExtractionFieldPayload>)
    ensures
        record_alias_texts(fields) == view_alias_texts(field_views(fields)),
        non_alias_value_total(fields) == view_non_alias_total(field_views(fields)),
    decreases fields.len(),
{
    if fields.len() > 0 {
        lemma_alias_texts(fields.drop_last());
        assert(field_views(fields.drop_last()) =~= field_views(fields).drop_last());
        let f = fields.last();
        assert(field_views(fields).last() == field_view(f));
        assert(f.values@.map_values(|v: StoryExtractionFieldValuePayload| v.value@) =~= field_view(f).2.map_values(
            |v: ValueView| v.0,
        ));
    }
}

proof fn lemma_record_signals(r: StoryExtractionRecordPayload)
    ensures
        low_signal(r) == view_low_signal(record_view(r)),
        record_alias_texts(r.fields@) == view_alias_texts(record_view(r).5),
        non_alias_value_total(r.fields@) == view_non_alias_total(record_view(r).5),
{
    lemma_alias_texts(r.fields@);
}


proof fn lemma_match_views(rs: Seq<StoryExtractionRecordPayload>, source: int)
    requires
        0 <= source < rs.len(),
    ensures
        forall|t: int| #[trigger] exact_match(rs, source, t) == view_exact(record_views(rs), source, t),
        forall|t: int| #[trigger] near_match(rs, source, t) == view_near(record_views(rs), source, t),
{
    let recs = record_views(rs);
    lemma_record_signals(rs[source]);
    assert(recs[source] == record_view(rs[source]));
    assert forall|t: int| #[trigger] exact_match(rs, source, t) == view_exact(recs, source, t) by {
        if 0 <= t < rs.len() {
            lemma_record_signals(rs[t]);
            assert(recs[t] == record_view(rs[t]));
        }
    }
    assert forall|t: int| #[trigger] near_match(rs, source, t) == view_near(recs, source, t) by {
        if 0 <= t < rs.len() {
            lemma_record_signals(rs[t]);
            assert(recs[t] == record_view(rs[t]));
        }
    }
}

proof fn lemma_first_exact(rs: Seq<StoryExtractionRecordPayload>, source: int, w: int)
    requires
        0 <= w,
        exact_match(rs, source, w),
    ensures
        exists|t: int| exact_match(rs, source, t) && forall|u: int| 0 <= u < t ==> !exact_match(rs, source, u),
    decreases w,
{
    if exists|u: int| 0 <= u < w && exact_match(rs, source, u) {
        let u = choose|u: int| 0 <= u < w && exact_match(rs, source, u);
        lemma_first_exact(rs, source, u);
    } else {
        assert(exact_match(rs, source, w) && forall|u: int| 0 <= u < w ==> !exact_match(rs, source, u));
    }
}

#[verifier::spinoff_prover]
proof fn lemma_exact_first(rs: Seq<StoryExtractionRecordPayload>, source: int)
    requires
        0 <= source < rs.len(),
        exists|t: int| exact_match(rs, source, t),
    ensures
        (choose|t: int| exact_match(rs, source, t) && forall|u: int| 0 <= u < t ==> !exact_match(rs, source, u))
            == (choose|t: int|
            view_exact(record_views(rs), source, t) && forall|u: int| 0 <= u < t ==> !view_exact(
                record_views(rs),
                source,
                u,
            )),
{
    let recs = record_views(rs);
    lemma_match_views(rs, source);
    let w = choose|t: int| exact_match(rs, source, t);
    lemma_first_exact(rs, source, w);
    let a = choose|t: int| exact_match(rs, source, t) && forall|u: int| 0 <= u < t ==> !exact_match(rs, source, u);
    assert(view_exact(recs, source, a));
    assert forall|u: int| 0 <= u < a implies !view_exact(recs, source, u) by {
        assert(!exact_match(rs, source, u));
    }
    let b = choose|t: int| view_exact(recs, source, t) && forall|u: int| 0 <= u < t ==> !view_exact(recs, source, u);
    assert(view_exact(recs, source, b));
    assert(exact_match(rs, source, b));
    if a < b {
        assert(!view_exact(recs, source, a));
    }
    if b < a {
        assert(!exact_match(rs, source, b));
    }
}

proof fn lemma_first_near(rs: Seq<StoryExtractionRecordPayload>, source: int, w: int)
    requires
        0 <= w,
        near_match(rs, source, w),
    ensures
        exists|t: int| near_match(rs, source, t) && forall|u: int| 0 <= u < t ==> !near_match(rs, source, u),
    decreases w,
{
    if exists|u: int| 0 <= u < w && near_match(rs, source, u) {
        let u = choose|u: int| 0 <= u < w && near_match(rs, source, u);
        lemma_first_near(rs, source, u);
    } else {
        assert(near_match(rs, source, w) && forall|u: int| 0 <= u < w ==> !near_match(rs, source, u));
    }
}

#[verifier::spinoff_prover]
proof fn lemma_near_first(rs: Seq<StoryExtractionRecordPayload>, source: int)
    requires
        0 <= source < rs.len(),
        exists|t: int| near_match(rs, source, t),
    ensures
        (choose|t: int| near_match(rs, source, t) && forall|u: int| 0 <= u < t ==> !near_match(rs, source, u))
            == (choose|t: int|
            view_near(record_views(rs), source, t) && forall|u: int| 0 <= u < t ==> !view_near(
                record_views(rs),
                source,
                u,
            )),
{
    let recs = record_views(rs);
    lemma_match_views(rs, source);
    let w = choose|t: int| near_match(rs, source, t);
    lemma_first_near(rs, source, w);
    let a = choose|t: int| near_match(rs, source, t) && forall|u: int| 0 <= u < t ==> !near_match(rs, source, u);
    assert(view_near(recs, source, a));
    assert forall|u: int| 0 <= u < a implies !view_near(recs, source, u) by {
        assert(!near_match(rs, source, u));
    }
    let b = choose|t: int| view_near(recs, source, t) && forall|u: int| 0 <= u < t ==> !view_near(recs, source, u);
    assert(view_near(recs, source, b));
    assert(near_match(rs, source, b));
    if a < b {
        assert(!view_near(recs, source, a));
    }
    if b < a {
        assert(!near_match(rs, source, b));
    }
}

/// The merge target of a record depends on the views of the records alone.
#[verifier::spinoff_prover]
#[verifier::rlimit(50)]
pub proof fn lemma_view_merge_target(rs: Seq<StoryExtractionRecordPayload>, source: int)
    requires
        0 <= source < rs.len(),
    ensures
        merge_target(rs, source) == view_merge_target(record_views(rs), source),
{
    let recs = record_views(rs);
    assert(recs[source] == record_view(rs[source]));
    let has_exact = exists|t: int| exact_match(rs, source, t);
    let has_near = exists|t: int| near_match(rs, source, t);
    assert(has_exact == exists|t: int| view_exact(recs, source, t)) by {
        lemma_match_views(rs, source);
        if has_exact {
            let w = choose|t: int| exact_match(rs, source, t);
            assert(view_exact(recs, source, w));
        }
        if exists|t: int| view_exact(recs, source, t) {
            let w = choose|t: int| view_exact(recs, source, t);
            assert(exact_match(rs, source, w));
        }
    }
    assert(has_near == exists|t: int| view_near(recs, source, t)) by {
        lemma_match_views(rs, source);
        if has_near {
            let w = choose|t: int| near_match(rs, source, t);
            assert(view_near(recs, source, w));
        }
        if exists|t: int| view_near(recs, source, t) {
            let w = choose|t: int| view_near(recs, source, t);
            assert(near_match(rs, source, w));
        }
    }
    if has_exact {
        lemma_exact_first(rs, source);
    } else if has_near {
        lemma_near_first(rs, source);
    }
}


proof fn lemma_merge_target_range(rs: Seq<StoryExtractionRecordPayload>, source: int)
    requires
        0 <= source < rs.len(),
    ensures
        merge_target(rs, source) matches Some((t, k)) ==> 0 <= t < rs.len() && t != source,
{
    if text_key(rs[source].display_name@, true).len() != 0 {
        if exists|t: int| exact_match(rs, source, t) {
            let t = choose|t: int|
                exact_match(rs, source, t) && forall|u: int| 0 <= u < t ==> !exact_match(rs, source, u);
            lemma_first_exact(rs, source, choose|t: int| exact_match(rs, source, t));
            assert(exact_match(rs, source, t));
        } else if exists|t: int| near_match(rs, source, t) {
            let t = choose|t: int|
                near_match(rs, source, t) && forall|u: int| 0 <= u < t ==> !near_match(rs, source, u);
            lemma_first_near(rs, source, choose|t: int| near_match(rs, source, t));
            assert(near_match(rs, source, t));
        }
    }
}

// ------------------------------------------------------------------------
// Merging the weak records.
// ------------------------------------------------------------------------
/// A weak record merged into its target: its mentions and fields join the
/// target's.
pub open spec fn merged_into(target: RecordView, source: RecordView) -> RecordView {
    (
        target.0,
        target.1,
        target.2,
        target.3,
        merged_record_mentions(target.4, source.4),
        merged_record_fields(target.5, source.5),
    )
}

/// The suspect item that tells of a merge.
pub open spec fn merge_suspect(source: RecordView, target: RecordView, kind: Seq<char>) -> SuspectView {
    (
        "probable_alias_character_record_merged"@,
        seq![("source_display_name"@, source.3), ("target_display_name"@, target.3), ("match_kind"@, kind)],
        seq![],
    )
}

/// From the record at `i` on, each weak record that has a target merged into
/// it and removed, with a suspect item after `sus` for each merge.
pub open spec fn probable_merges(recs: Seq<RecordView>, i: int, sus: Seq<SuspectView>) -> (
    Seq<RecordView>,
    Seq<SuspectView>,
)
    decreases recs.len() - i,
{
    if i < 0 || i >= recs.len() {
        (recs, sus)
    } else if !view_low_signal(recs[i]) {
        probable_merges(recs, i + 1, sus)
    } else {
        match view_merge_target(recs, i) {
            None => probable_merges(recs, i + 1, sus),
            Some((t, kind)) => {
                let rest = recs.remove(i);
                let at = if t > i {
                    t - 1
                } else {
                    t
                };
                if 0 <= at < rest.len() {
                    probable_merges(
                        rest.update(at, merged_into(rest[at], recs[i])),
                        i,
                        sus.push(merge_suspect(recs[i], recs[t], kind)),
                    )
                } else {
                    (recs, sus)
                }
            },
        }
    }
}

/// The record at `source` merged into the one at `target` and removed; the
/// suspect item that tells of it pushed.
#[verifier::rlimit(30)]
fn merge_record_into(
    records: &mut Vec<StoryExtractionRecordPayload>,
    suspect_items: &mut Vec<SuspectItem>,
    source: usize,
    target: usize,
    match_kind: &str,
)
    requires
        source < old(records)@.len(),
        target < old(records)@.len(),
        source != target,
    ensures
        ({
            let recs = record_views(old(records)@);
            let rest = recs.remove(source as int);
            let at = if target > source {
                target - 1
            } else {
                target as int
            };
            &&& record_views(final(records)@) == rest.update(at, merged_into(rest[at], recs[source as int]))
            &&& suspect_views(final(suspect_items)@) == suspect_views(old(suspect_items)@).push(
                merge_suspect(recs[source as int], recs[target as int], match_kind@),
            )
        }),
{
    let ghost recs = record_views(records@);
    let ghost sus = suspect_views(suspect_items@);
    let ghost rest = recs.remove(source as int);
    assert(recs[source as int] == record_view(records@[source as int]));
    assert(recs[target as int] == record_view(records@[target as int]));
    let source_display_name = records[source].display_name.clone();
    let target_display_name = records[target].display_name.clone();
    let source_record = records.remove(source);
    let adjusted = if target > source {
        target - 1
    } else {
        target
    };
    assert(record_views(records@) =~= rest);
    let mut merged = records.remove(adjusted);
    let ghost tv = record_view(merged);
    assert(tv == rest[adjusted as int]);
    merge_record_mentions(&mut merged, source_record.mentions);
    merge_record_fields(&mut merged, source_record.fields);
    records.insert(adjusted, merged);
    let item = SuspectItem {
        reason: owned("probable_alias_character_record_merged"),
        details: vec![
            (owned("source_display_name"), source_display_name),
            (owned("target_display_name"), target_display_name),
            (owned("match_kind"), owned(match_kind)),
        ],
        evidence_quotes: Vec::new(),
    };
    suspect_items.push(item);
    proof {
        assert(record_view(merged) =~= merged_into(tv, recs[source as int]));
        assert(record_views(records@) =~= rest.update(adjusted as int, merged_into(rest[adjusted as int], recs[source as int])));
        assert(suspect_view(item).1 =~= merge_suspect(recs[source as int], recs[target as int], match_kind@).1);
        assert(suspect_view(item).2 =~= Seq::<Seq<char>>::empty());
        assert(suspect_views(suspect_items@) =~= sus.push(merge_suspect(recs[source as int], recs[target as int], match_kind@)));
    }
}

/// Each weak character record
/// (at most two mentions, no values but aliases) whose name is a surface of
/// a stronger record, or one edit from one of its aliases, is merged into
/// that record; a suspect item tells of each merge.
pub fn merge_probable_alias_character_records(
    records: &mut Vec<StoryExtractionRecordPayload>,
    suspect_items: &mut Vec<SuspectItem>,
)
    ensures
        (record_views(final(records)@), suspect_views(final(suspect_items)@)) == probable_merges(
            record_views(old(records)@),
            0,
            suspect_views(old(suspect_items)@),
        ),
{
    let ghost goal = probable_merges(record_views(records@), 0, suspect_views(suspect_items@));
    let mut source_index: usize = 0;
    while source_index < records.len()
        invariant
            0 <= source_index <= records@.len(),
            probable_merges(record_views(records@), source_index as int, suspect_views(suspect_items@)) == goal,
        decreases records@.len() - source_index,
    {
        let ghost recs = record_views(records@);
        let ghost sus = suspect_views(suspect_items@);
        let ghost i = source_index as int;
        proof {
            lemma_record_signals(records@[i]);
            assert(recs[i] == record_view(records@[i]));
        }
        if !is_low_signal_alias_candidate_record(&records[source_index]) {
            assert(probable_merges(recs, i, sus) == probable_merges(recs, i + 1, sus));
            source_index += 1;
        } else {
            proof {
                lemma_view_merge_target(records@, i);
                lemma_merge_target_range(records@, i);
            }
            match probable_alias_record_merge_target(records, source_index) {
                None => {
                    assert(probable_merges(recs, i, sus) == probable_merges(recs, i + 1, sus));
                    source_index += 1;
                },
                Some((target_index, match_kind)) => {
                    merge_record_into(records, suspect_items, source_index, target_index, match_kind);
                    assert(probable_merges(recs, i, sus) == probable_merges(
                        record_views(records@),
                        i,
                        suspect_views(suspect_items@),
                    ));
                },
            }
        }
    }
}


/// Each merge of a weak record removes exactly one record and tells of it
/// in exactly one suspect item: records and items together keep their count,
/// no record is added, and the suspect items already there stay first.
pub proof fn lemma_probable_merges_count(recs: Seq<RecordView>, i: int, sus: Seq<SuspectView>)
    requires
        0 <= i,
    ensures
        probable_merges(recs, i, sus).0.len() + probable_merges(recs, i, sus).1.len() == recs.len() + sus.len(),
        probable_merges(recs, i, sus).0.len() <= recs.len(),
        probable_merges(recs, i, sus).1.take(sus.len() as int) == sus,
    decreases recs.len() - i,
{
    if i < recs.len() {
        if !view_low_signal(recs[i]) {
            lemma_probable_merges_count(recs, i + 1, sus);
        } else {
            match view_merge_target(recs, i) {
                None => lemma_probable_merges_count(recs, i + 1, sus),
                Some((t, kind)) => {
                    let rest = recs.remove(i);
                    let at = if t > i {
                        t - 1
                    } else {
                        t
                    };
                    if 0 <= at < rest.len() {
                        let next = sus.push(merge_suspect(recs[i], recs[t], kind));
                        lemma_probable_merges_count(rest.update(at, merged_into(rest[at], recs[i])), i, next);
                        let out = probable_merges(rest.update(at, merged_into(rest[at], recs[i])), i, next).1;
                        assert(out.take(sus.len() as int) =~= out.take(next.len() as int).take(sus.len() as int));
                        assert(next.take(sus.len() as int) =~= sus);
                    }
                },
            }
        }
    } else {
        assert(sus.take(sus.len() as int) =~= sus);
    }
}

} // verus!
