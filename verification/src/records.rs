//! Validation and conversion of stream responses: the missing-data check,
//! the record-to-descriptor conversion over a whole fetch, and the
//! order-preserving deduplication of the merged descriptor list.

use vstd::prelude::*;
use crate::errors::SyncError;
use crate::replay::{RawRecord, RawRecordView, Replay, ReplayView, spec_replay_of, replay_eq};

verus! {

/// The mathematical values of a sequence of raw records.
pub open spec fn raw_views(s: Seq<RawRecord>) -> Seq<RawRecordView> {
    s.map_values(|r: RawRecord| r@)
}

/// The mathematical values of a sequence of descriptors.
pub open spec fn replay_views(s: Seq<Replay>) -> Seq<ReplayView> {
    s.map_values(|r: Replay| r@)
}

/// Validate a stream response's payload: an absent `data` field is an
/// error for that stream, while an empty record list is a success with
/// zero records.
pub fn records_or_missing(stream: &str, data: Option<Vec<RawRecord>>) -> (r: Result<
    Vec<RawRecord>,
    SyncError,
>)
    ensures
        match data {
            Some(recs) => r matches Ok(v) && v@ == recs@,
            None => r matches Err(e) && (e matches SyncError::StreamDataMissing { stream: s }
                && s@ == stream@),
        },
{
    match data {
        Some(recs) => Ok(recs),
        None => Err(SyncError::StreamDataMissing { stream: stream.to_owned() }),
    }
}

/// The descriptors a record sequence denotes, or `None` when any record's
/// timestamp fails to convert.
pub open spec fn spec_convert_all(rs: Seq<RawRecordView>) -> Option<Seq<ReplayView>>
    decreases rs.len(),
{
    if rs.len() == 0 {
        Some(Seq::empty())
    } else {
        match spec_convert_all(rs.drop_last()) {
            None => None,
            Some(vs) => match spec_replay_of(rs.last()) {
                None => None,
                Some(v) => Some(vs.push(v)),
            },
        }
    }
}

proof fn lemma_convert_none_prefix(s: Seq<RawRecordView>, k: int)
    requires
        0 <= k <= s.len(),
        spec_convert_all(s.take(k)) is None,
    ensures
        spec_convert_all(s) is None,
    decreases s.len() - k,
{
    if k == s.len() {
        assert(s.take(k) =~= s);
    } else {
        assert(s.take(k + 1).drop_last() =~= s.take(k));
        lemma_convert_none_prefix(s, k + 1);
    }
}

/// Convert every fetched record to a descriptor, failing the whole run on
/// the first record whose timestamp does not parse.
pub fn replays_from_records(records: &Vec<RawRecord>) -> (r: Result<Vec<Replay>, SyncError>)
    ensures
        match spec_convert_all(raw_views(records@)) {
            Some(vs) => r matches Ok(out) && replay_views(out@) == vs && (forall|i: int|
                0 <= i < vs.len() ==> vs[i].wf()),
            None => r matches Err(e) && (e matches SyncError::TimestampParse { input }
                && exists|i: int|
                {
                    &&& 0 <= i < raw_views(records@).len()
                    &&& spec_convert_all(raw_views(records@).take(i)) is Some
                    &&& spec_replay_of(#[trigger] raw_views(records@)[i]) is None
                    &&& input@ == raw_views(records@)[i].recorded_at
                }),
        },
{
    let ghost rawv = raw_views(records@);
    let mut out: Vec<Replay> = Vec::new();
    let mut i: usize = 0;
    while i < records.len()
        invariant
            i <= records@.len(),
            rawv == raw_views(records@),
            spec_convert_all(rawv.take(i as int)) == Some(replay_views(out@)),
            forall|j: int| 0 <= j < out@.len() ==> #[trigger] replay_views(out@)[j].wf(),
        decreases records@.len() - i,
    {
        let rec = records[i].clone();
        match Replay::from_record(rec) {
            Ok(rep) => {
                let ghost prev = replay_views(out@);
                out.push(rep);
                proof {
                    assert(rawv.take(i + 1).drop_last() =~= rawv.take(i as int));
                    assert(rawv.take(i + 1).last() == rawv[i as int]);
                    assert(replay_views(out@) =~= prev.push(rep@));
                }
            },
            Err(e) => {
                proof {
                    assert(rawv.take(i + 1).drop_last() =~= rawv.take(i as int));
                    assert(rawv.take(i + 1).last() == rawv[i as int]);
                    assert(spec_convert_all(rawv.take(i + 1)) is None);
                    lemma_convert_none_prefix(rawv, i + 1);
                }
                return Err(e);
            },
        }
        i += 1;
    }
    proof {
        assert(rawv.take(records@.len() as int) =~= rawv);
    }
    Ok(out)
}

/// How many times `v` occurs in `s`.
pub open spec fn spec_count<A>(s: Seq<A>, v: A) -> nat
    decreases s.len(),
{
    if s.len() == 0 {
        0
    } else {
        spec_count(s.drop_last(), v) + if s.last() == v {
            1nat
        } else {
            0nat
        }
    }
}

/// `s` with every repeated value dropped: the first occurrence of each
/// value is kept, in first-seen order.
pub open spec fn spec_dedup<A>(s: Seq<A>) -> Seq<A>
    decreases s.len(),
{
    if s.len() == 0 {
        Seq::empty()
    } else {
        let rest = spec_dedup(s.drop_last());
        if rest.contains(s.last()) {
            rest
        } else {
            rest.push(s.last())
        }
    }
}

/// A value occurs in `s` exactly when it is counted at least once.
pub proof fn lemma_count_contains<A>(s: Seq<A>, v: A)
    ensures
        spec_count(s, v) > 0 <==> s.contains(v),
    decreases s.len(),
{
    if s.len() > 0 {
        lemma_count_contains(s.drop_last(), v);
        if s.last() == v {
            assert(s[s.len() - 1] == v);
        } else {
            if s.drop_last().contains(v) {
                let i = choose|i: int| 0 <= i < s.drop_last().len() && s.drop_last()[i] == v;
                assert(s[i] == v);
            }
            if s.contains(v) {
                let i = choose|i: int| 0 <= i < s.len() && s[i] == v;
                assert(s.drop_last()[i] == v);
            }
        }
    }
}

/// Deduplication keeps exactly one occurrence of every value that occurs
/// in the input, and none of any other value.
pub proof fn lemma_dedup_count<A>(s: Seq<A>, v: A)
    ensures
        spec_count(spec_dedup(s), v) == if s.contains(v) {
            1nat
        } else {
            0nat
        },
    decreases s.len(),
{
    if s.len() == 0 {
        assert(!s.contains(v));
    } else {
        let rest = s.drop_last();
        let d = spec_dedup(rest);
        lemma_dedup_count(rest, v);
        lemma_count_contains(rest, v);
        lemma_count_contains(d, v);
        assert(s.contains(v) <==> (rest.contains(v) || s.last() == v)) by {
            if s.contains(v) {
                let i = choose|i: int| 0 <= i < s.len() && s[i] == v;
                if i < s.len() - 1 {
                    assert(rest[i] == v);
                }
            }
            if rest.contains(v) {
                let i = choose|i: int| 0 <= i < rest.len() && rest[i] == v;
                assert(s[i] == v);
            }
            if s.last() == v {
                assert(s[s.len() - 1] == v);
            }
        }
        // dedup of the whole, related to dedup of the prefix
        if d.contains(s.last()) {
            // the last value is already kept once; the result is unchanged
            if v == s.last() {
                assert(spec_count(d, v) > 0);
            }
        } else {
            let dd = d.push(s.last());
            assert(dd.drop_last() =~= d);
            assert(dd.last() == s.last());
            assert(spec_count(dd, v) == spec_count(d, v) + if s.last() == v {
                1nat
            } else {
                0nat
            });
            if v == s.last() {
                assert(spec_count(d, v) == 0);
            }
        }
    }
}

fn contains_replay(v: &Vec<Replay>, rep: &Replay) -> (r: bool)
    ensures
        r == replay_views(v@).contains(rep@),
{
    let mut j: usize = 0;
    while j < v.len()
        invariant
            j <= v@.len(),
            forall|k: int| 0 <= k < j ==> #[trigger] replay_views(v@)[k] != rep@,
        decreases v@.len() - j,
    {
        if replay_eq(&v[j], rep) {
            proof {
                assert(replay_views(v@)[j as int] == rep@);
            }
            return true;
        }
        j += 1;
    }
    false
}

/// Deduplicate the merged descriptor list by full-value equality,
/// preserving first-seen order.
pub fn dedup(replays: &Vec<Replay>) -> (r: Vec<Replay>)
    ensures
        replay_views(r@) == spec_dedup(replay_views(replays@)),
{
    let ghost views = replay_views(replays@);
    let mut out: Vec<Replay> = Vec::new();
    let mut i: usize = 0;
    while i < replays.len()
        invariant
            i <= replays@.len(),
            views == replay_views(replays@),
            replay_views(out@) == spec_dedup(views.take(i as int)),
        decreases replays@.len() - i,
    {
        let ghost prev = replay_views(out@);
        let rep = &replays[i];
        if !contains_replay(&out, rep) {
            out.push(rep.clone());
            proof {
                assert(replay_views(out@) =~= prev.push(rep@));
            }
        }
        proof {
            assert(views.take(i + 1).drop_last() =~= views.take(i as int));
            assert(views.take(i + 1).last() == views[i as int]);
        }
        i += 1;
    }
    proof {
        assert(views.take(replays@.len() as int) =~= views);
    }
    out
}

} // verus!
