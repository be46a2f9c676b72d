//! Reconciliation of remote descriptors against local directory state:
//! desired filenames, the replays missing locally, the directory entries
//! that are replay files at all, and the stale files pruning removes.

use vstd::prelude::*;
use crate::replay::{Replay, ReplayView, spec_filename, spec_extension};
use crate::records::replay_views;

verus! {

/// The mathematical values of a sequence of strings.
pub open spec fn str_views(s: Seq<String>) -> Seq<Seq<char>> {
    s.map_values(|x: String| x@)
}

/// The canonical filename of every descriptor, one per descriptor and in
/// the same order (duplicate filenames across distinct descriptors are
/// kept as duplicates).
pub fn desired_filenames(replays: &Vec<Replay>) -> (r: Vec<String>)
    requires
        forall|i: int| 0 <= i < replays@.len() ==> (#[trigger] replays@[i]@).wf(),
    ensures
        r@.len() == replays@.len(),
        forall|i: int| 0 <= i < r@.len() ==> #[trigger] r@[i]@ == spec_filename(replays@[i]@),
{
    let mut out: Vec<String> = Vec::new();
    let mut i: usize = 0;
    while i < replays.len()
        invariant
            i <= replays@.len(),
            out@.len() == i,
            forall|i: int| 0 <= i < replays@.len() ==> (#[trigger] replays@[i]@).wf(),
            forall|j: int| 0 <= j < i ==> #[trigger] out@[j]@ == spec_filename(replays@[j]@),
        decreases replays@.len() - i,
    {
        out.push(replays[i].filename());
        i += 1;
    }
    out
}

/// The subsequence of descriptors whose canonical file was found missing,
/// by the existence bit gathered for each.
pub open spec fn spec_select_missing(rs: Seq<ReplayView>, ex: Seq<bool>) -> Seq<ReplayView>
    recommends
        rs.len() == ex.len(),
    decreases rs.len(),
{
    if rs.len() == 0 {
        Seq::empty()
    } else {
        let rest = spec_select_missing(rs.drop_last(), ex.drop_last());
        if ex.len() > 0 && ex.last() {
            rest
        } else {
            rest.push(rs.last())
        }
    }
}

/// Keep the descriptors whose existence check came back false, preserving
/// order: these are the replays to download.
pub fn select_missing(replays: &Vec<Replay>, exists: &Vec<bool>) -> (r: Vec<Replay>)
    requires
        replays@.len() == exists@.len(),
    ensures
        replay_views(r@) == spec_select_missing(replay_views(replays@), exists@),
{
    let ghost views = replay_views(replays@);
    let mut out: Vec<Replay> = Vec::new();
    let mut i: usize = 0;
    while i < replays.len()
        invariant
            i <= replays@.len(),
            replays@.len() == exists@.len(),
            views == replay_views(replays@),
            replay_views(out@) == spec_select_missing(views.take(i as int), exists@.take(i as int)),
        decreases replays@.len() - i,
    {
        let ghost prev = replay_views(out@);
        if !exists[i] {
            out.push(replays[i].clone());
            proof {
                assert(replay_views(out@) =~= prev.push(views[i as int]));
            }
        }
        proof {
            assert(views.take(i + 1).drop_last() =~= views.take(i as int));
            assert(exists@.take(i + 1).drop_last() =~= exists@.take(i as int));
        }
        i += 1;
    }
    proof {
        assert(views.take(replays@.len() as int) =~= views);
        assert(exists@.take(exists@.len() as int) =~= exists@);
    }
    out
}

/// The index of the last `.` in `s`, or `-1` when `s` has none.
pub open spec fn spec_last_dot(s: Seq<char>) -> int
    decreases s.len(),
{
    if s.len() == 0 {
        -1
    } else if s.last() == '.' {
        s.len() - 1
    } else {
        spec_last_dot(s.drop_last())
    }
}

proof fn lemma_last_dot_props(s: Seq<char>)
    ensures
        -1 <= spec_last_dot(s) < s.len(),
        spec_last_dot(s) >= 0 ==> s[spec_last_dot(s)] == '.',
        forall|p: int| spec_last_dot(s) < p < s.len() ==> s[p] != '.',
    decreases s.len(),
{
    if s.len() > 0 {
        lemma_last_dot_props(s.drop_last());
        if s.last() != '.' {
            assert forall|p: int| spec_last_dot(s) < p < s.len() implies s[p] != '.' by {
                if p < s.len() - 1 {
                    assert(s.drop_last()[p] == s[p]);
                }
            }
        }
    }
}

/// Whether a directory entry's name is a replay file's: its extension,
/// the part after the last dot of a non-empty stem, is exactly `ttr` or
/// `ttrm`.
pub open spec fn spec_is_replay_name(s: Seq<char>) -> bool {
    let i = spec_last_dot(s);
    i > 0 && {
        let ext = s.subrange(i + 1, s.len() as int);
        ext == spec_extension(false) || ext == spec_extension(true)
    }
}

/// Decide whether a name carries one of the two replay extensions.
pub fn is_replay_name(name: &str) -> (r: bool)
    ensures
        r == spec_is_replay_name(name@),
{
    proof {
        lemma_last_dot_props(name@);
    }
    let n = name.unicode_len();
    let mut k = n;
    let mut dot: usize = 0;
    let mut found = false;
    while k > 0 && !found
        invariant
            k <= n,
            n == name@.len(),
            !found ==> forall|p: int| k <= p < n ==> name@[p] != '.',
            found ==> k < n && name@[k as int] == '.' && (forall|p: int|
                k < p < n ==> name@[p] != '.') && dot == k,
        decreases k + if found {
            0int
        } else {
            1int
        },
    {
        if name.get_char(k - 1) == '.' {
            found = true;
            dot = k - 1;
            k = k - 1;
        } else {
            k = k - 1;
        }
    }
    if !found {
        proof {
            assert(spec_last_dot(name@) == -1) by {
                if spec_last_dot(name@) >= 0 {
                    assert(name@[spec_last_dot(name@)] == '.');
                }
            }
        }
        return false;
    }
    proof {
        assert(spec_last_dot(name@) == dot) by {
            if spec_last_dot(name@) > dot {
                assert(name@[spec_last_dot(name@)] != '.');
            }
            if spec_last_dot(name@) < dot {
                assert(name@[dot as int] != '.');
            }
        }
    }
    if dot == 0 {
        return false;
    }
    let ext_len = n - dot - 1;
    let ghost ext = name@.subrange(dot + 1, n as int);
    proof {
        assert(ext.len() == n - dot - 1);
        assert(spec_extension(false) =~= seq!['t', 't', 'r']);
        assert(spec_extension(true) =~= seq!['t', 't', 'r', 'm']);
        assert(spec_extension(false).len() == 3 && spec_extension(false)[0] == 't'
            && spec_extension(false)[1] == 't' && spec_extension(false)[2] == 'r');
        assert(spec_extension(true).len() == 4 && spec_extension(true)[0] == 't'
            && spec_extension(true)[1] == 't' && spec_extension(true)[2] == 'r'
            && spec_extension(true)[3] == 'm');
    }
    if ext_len == 3 {
        let r = name.get_char(dot + 1) == 't' && name.get_char(dot + 2) == 't' && name.get_char(
            dot + 3,
        ) == 'r';
        proof {
            if r {
                assert(ext =~= spec_extension(false));
            } else {
                assert(ext != spec_extension(false));
                assert(ext != spec_extension(true));
            }
        }
        r
    } else if ext_len == 4 {
        let r = name.get_char(dot + 1) == 't' && name.get_char(dot + 2) == 't' && name.get_char(
            dot + 3,
        ) == 'r' && name.get_char(dot + 4) == 'm';
        proof {
            if r {
                assert(ext =~= spec_extension(true));
            } else {
                assert(ext != spec_extension(false));
                assert(ext != spec_extension(true));
            }
        }
        r
    } else {
        proof {
            assert(ext != spec_extension(false));
            assert(ext != spec_extension(true));
        }
        false
    }
}

/// The names among `s` that carry a replay extension, in order.
pub open spec fn spec_replay_files(s: Seq<Seq<char>>) -> Seq<Seq<char>>
    decreases s.len(),
{
    if s.len() == 0 {
        Seq::empty()
    } else {
        let rest = spec_replay_files(s.drop_last());
        if spec_is_replay_name(s.last()) {
            rest.push(s.last())
        } else {
            rest
        }
    }
}

/// Keep the directory entries that are replay files: extension exactly
/// `ttr` or `ttrm`; every other entry is ignored.
pub fn filter_replay_files(names: &Vec<String>) -> (r: Vec<String>)
    ensures
        str_views(r@) == spec_replay_files(str_views(names@)),
{
    let ghost views = str_views(names@);
    let mut out: Vec<String> = Vec::new();
    let mut i: usize = 0;
    while i < names.len()
        invariant
            i <= names@.len(),
            views == str_views(names@),
            str_views(out@) == spec_replay_files(views.take(i as int)),
        decreases names@.len() - i,
    {
        let ghost prev = str_views(out@);
        if is_replay_name(names[i].as_str()) {
            out.push(names[i].clone());
            proof {
                assert(str_views(out@) =~= prev.push(views[i as int]));
            }
        }
        proof {
            assert(views.take(i + 1).drop_last() =~= views.take(i as int));
        }
        i += 1;
    }
    proof {
        assert(views.take(names@.len() as int) =~= views);
    }
    out
}

fn contains_str(v: &Vec<String>, name: &String) -> (r: bool)
    ensures
        r == str_views(v@).contains(name@),
{
    let mut j: usize = 0;
    while j < v.len()
        invariant
            j <= v@.len(),
            forall|k: int| 0 <= k < j ==> #[trigger] str_views(v@)[k] != name@,
        decreases v@.len() - j,
    {
        if v[j].eq(name) {
            proof {
                assert(str_views(v@)[j as int] == name@);
            }
            return true;
        }
        j += 1;
    }
    false
}

/// The names among `existing` that are not desired, in order: the files
/// pruning deletes.
pub open spec fn spec_select_stale(existing: Seq<Seq<char>>, keep: Seq<Seq<char>>) -> Seq<
    Seq<char>,
>
    decreases existing.len(),
{
    if existing.len() == 0 {
        Seq::empty()
    } else {
        let rest = spec_select_stale(existing.drop_last(), keep);
        if keep.contains(existing.last()) {
            rest
        } else {
            rest.push(existing.last())
        }
    }
}

/// Keep the existing replay files whose name is not in the desired set:
/// these are the files pruning removes.
pub fn select_stale(existing: &Vec<String>, keep: &Vec<String>) -> (r: Vec<String>)
    ensures
        str_views(r@) == spec_select_stale(str_views(existing@), str_views(keep@)),
{
    let ghost views = str_views(existing@);
    let mut out: Vec<String> = Vec::new();
    let mut i: usize = 0;
    while i < existing.len()
        invariant
            i <= existing@.len(),
            views == str_views(existing@),
            str_views(out@) == spec_select_stale(views.take(i as int), str_views(keep@)),
        decreases existing@.len() - i,
    {
        let ghost prev = str_views(out@);
        if !contains_str(keep, &existing[i]) {
            out.push(existing[i].clone());
            proof {
                assert(str_views(out@) =~= prev.push(views[i as int]));
            }
        }
        proof {
            assert(views.take(i + 1).drop_last() =~= views.take(i as int));
        }
        i += 1;
    }
    proof {
        assert(views.take(existing@.len() as int) =~= views);
    }
    out
}

/// A second run over an unchanged world is a no-op: when every desired
/// file already exists, nothing is selected for download, and when every
/// existing replay file is desired, nothing is selected for removal.
pub proof fn lemma_second_run_is_noop(
    replays: Seq<ReplayView>,
    exists: Seq<bool>,
    existing: Seq<Seq<char>>,
    keep: Seq<Seq<char>>,
)
    requires
        exists.len() == replays.len(),
        forall|i: int| 0 <= i < exists.len() ==> exists[i],
        forall|i: int| 0 <= i < existing.len() ==> keep.contains(#[trigger] existing[i]),
    ensures
        spec_select_missing(replays, exists) == Seq::<ReplayView>::empty(),
        spec_select_stale(existing, keep) == Seq::<Seq<char>>::empty(),
{
    lemma_all_exist_none_missing(replays, exists);
    lemma_all_kept_none_stale(existing, keep);
}

proof fn lemma_all_exist_none_missing(replays: Seq<ReplayView>, exists: Seq<bool>)
    requires
        exists.len() == replays.len(),
        forall|i: int| 0 <= i < exists.len() ==> exists[i],
    ensures
        spec_select_missing(replays, exists) == Seq::<ReplayView>::empty(),
    decreases replays.len(),
{
    if replays.len() > 0 {
        lemma_all_exist_none_missing(replays.drop_last(), exists.drop_last());
        assert(exists.last());
    }
}

proof fn lemma_all_kept_none_stale(existing: Seq<Seq<char>>, keep: Seq<Seq<char>>)
    requires
        forall|i: int| 0 <= i < existing.len() ==> keep.contains(#[trigger] existing[i]),
    ensures
        spec_select_stale(existing, keep) == Seq::<Seq<char>>::empty(),
    decreases existing.len(),
{
    if existing.len() > 0 {
        assert(forall|i: int| 0 <= i < existing.len() - 1 ==> existing.drop_last()[i]
            == existing[i]);
        lemma_all_kept_none_stale(existing.drop_last(), keep);
        assert(keep.contains(existing[existing.len() - 1]));
    }
}

} // verus!
