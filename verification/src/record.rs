//! The score record: one row per accepted submission, and the canonical
//! order that ranks records within a course.

use vstd::prelude::*;
use crate::counting::count_where;

verus! {

/// One accepted submission. `time_millis` is the performance metric in
/// milliseconds (lower is better); `completed_at` is a server-assigned
/// timestamp in milliseconds since the epoch.
pub struct ScoreRecord {
    pub id: u64,
    pub name: String,
    pub course: String,
    pub school: String,
    pub school_id: u128,
    pub time_millis: u64,
    pub completed_at: u64,
}

impl Clone for ScoreRecord {
    fn clone(&self) -> (res: Self)
        ensures
            res == *self,
    {
        ScoreRecord {
            id: self.id,
            name: self.name.clone(),
            course: self.course.clone(),
            school: self.school.clone(),
            school_id: self.school_id,
            time_millis: self.time_millis,
            completed_at: self.completed_at,
        }
    }
}

/// A legacy row as it may come off the disk store, with columns that
/// older schema revisions left empty.
pub struct RawScoreRecord {
    pub id: u64,
    pub name: Option<String>,
    pub course: Option<String>,
    pub school: Option<String>,
    pub school_id: Option<u128>,
    pub time_millis: Option<u64>,
    pub completed_at: Option<u64>,
}

/// Backfill a legacy row with the defaults of the current schema, so
/// historical rows satisfy the invariants before any ranking runs.
pub fn backfill_record(raw: RawScoreRecord, now: u64) -> (r: ScoreRecord)
    ensures
        r.id == raw.id,
        r.name@ == (match raw.name {
            Some(n) => n@,
            None => "Anonymous"@,
        }),
        r.course@ == (match raw.course {
            Some(c) => c@,
            None => "default"@,
        }),
        r.school@ == (match raw.school {
            Some(s) => s@,
            None => "Unknown School"@,
        }),
        r.school_id == (match raw.school_id {
            Some(s) => s,
            None => 0,
        }),
        r.time_millis == (match raw.time_millis {
            Some(t) => t,
            None => 999999000,
        }),
        r.completed_at == (match raw.completed_at {
            Some(t) => t,
            None => now,
        }),
{
    let name = match raw.name {
        Some(n) => n,
        None => String::from_str("Anonymous"),
    };
    let course = match raw.course {
        Some(c) => c,
        None => String::from_str("default"),
    };
    let school = match raw.school {
        Some(s) => s,
        None => String::from_str("Unknown School"),
    };
    let school_id = match raw.school_id {
        Some(s) => s,
        None => 0,
    };
    let time_millis = match raw.time_millis {
        Some(t) => t,
        None => 999999000,
    };
    let completed_at = match raw.completed_at {
        Some(t) => t,
        None => now,
    };
    ScoreRecord { id: raw.id, name, course, school, school_id, time_millis, completed_at }
}

/// The canonical strict order: faster time first, ties broken by earlier
/// completion, then by smaller id. On records with distinct ids this is a
/// strict total order.
pub open spec fn beats(a: ScoreRecord, b: ScoreRecord) -> bool {
    a.time_millis < b.time_millis || (a.time_millis == b.time_millis && (a.completed_at
        < b.completed_at || (a.completed_at == b.completed_at && a.id < b.id)))
}

pub proof fn lemma_beats_trans(a: ScoreRecord, b: ScoreRecord, c: ScoreRecord)
    requires
        beats(a, b),
        beats(b, c),
    ensures
        beats(a, c),
{
}

pub proof fn lemma_beats_total(a: ScoreRecord, b: ScoreRecord)
    requires
        a.id != b.id,
    ensures
        beats(a, b) || beats(b, a),
        !(beats(a, b) && beats(b, a)),
{
}

/// The record belongs to the given course and participant.
pub open spec fn in_scope(r: ScoreRecord, course: Seq<char>, school_id: u128) -> bool {
    r.course@ == course && r.school_id == school_id
}

pub open spec fn in_course(r: ScoreRecord, course: Seq<char>) -> bool {
    r.course@ == course
}

/// The index predicate selecting a participant's records for a course.
pub open spec fn scope_pred(recs: Seq<ScoreRecord>, course: Seq<char>, school_id: u128) -> spec_fn(
    int,
) -> bool {
    |i: int| in_scope(recs[i], course, school_id)
}

/// The index predicate selecting a course's records.
pub open spec fn course_pred(recs: Seq<ScoreRecord>, course: Seq<char>) -> spec_fn(int) -> bool {
    |i: int| in_course(recs[i], course)
}

/// How many stored records a participant holds for a course.
pub open spec fn mine_count(recs: Seq<ScoreRecord>, course: Seq<char>, school_id: u128) -> nat {
    count_where(recs.len() as int, scope_pred(recs, course, school_id))
}

/// How many stored records a course holds in all.
pub open spec fn course_count(recs: Seq<ScoreRecord>, course: Seq<char>) -> nat {
    count_where(recs.len() as int, course_pred(recs, course))
}

/// An executable decision of the canonical order.
pub fn beats_exec(a: &ScoreRecord, b: &ScoreRecord) -> (r: bool)
    ensures
        r == beats(*a, *b),
{
    a.time_millis < b.time_millis || (a.time_millis == b.time_millis && (a.completed_at
        < b.completed_at || (a.completed_at == b.completed_at && a.id < b.id)))
}

/// The index predicate selecting the records of `course` that beat `r`.
pub open spec fn beats_in_course_pred(
    recs: Seq<ScoreRecord>,
    course: Seq<char>,
    r: ScoreRecord,
) -> spec_fn(int) -> bool {
    |j: int| in_course(recs[j], course) && beats(recs[j], r)
}

/// How many records of `r`'s own course strictly outrank `r`.
pub open spec fn num_beating(recs: Seq<ScoreRecord>, r: ScoreRecord) -> nat {
    count_where(recs.len() as int, beats_in_course_pred(recs, r.course@, r))
}

/// The 1-based rank of `r` within its course: rank 1 is the best record.
pub open spec fn rank_in_course(recs: Seq<ScoreRecord>, r: ScoreRecord) -> nat {
    1 + num_beating(recs, r)
}

/// The first `n` records of `all`, keeping a record of `course` only when
/// fewer than `cap` records of that course beat it. Records of other
/// courses are kept unconditionally.
pub open spec fn pruned_upto(
    all: Seq<ScoreRecord>,
    course: Seq<char>,
    cap: nat,
    n: int,
) -> Seq<ScoreRecord>
    decreases n,
{
    if n <= 0 {
        Seq::<ScoreRecord>::empty()
    } else {
        let pre = pruned_upto(all, course, cap, n - 1);
        let r = all[n - 1];
        if !in_course(r, course) || num_beating(all, r) < cap {
            pre.push(r)
        } else {
            pre
        }
    }
}

/// Every pruned record is one of the first `n` records of `all`, and
/// pruning keeps ids pairwise distinct.
pub proof fn lemma_pruned_from(all: Seq<ScoreRecord>, course: Seq<char>, cap: nat, n: int)
    requires
        0 <= n <= all.len(),
        unique_ids(all),
    ensures
        forall|k: int|
            0 <= k < pruned_upto(all, course, cap, n).len() ==> exists|i: int|
                0 <= i < n && #[trigger] pruned_upto(all, course, cap, n)[k] == all[i],
        unique_ids(pruned_upto(all, course, cap, n)),
    decreases n,
{
    if n > 0 {
        lemma_pruned_from(all, course, cap, n - 1);
        let pre = pruned_upto(all, course, cap, n - 1);
        let res = pruned_upto(all, course, cap, n);
        let r = all[n - 1];
        if !in_course(r, course) || num_beating(all, r) < cap {
            assert forall|k: int| 0 <= k < res.len() implies exists|i: int|
                0 <= i < n && #[trigger] res[k] == all[i] by {
                if k < pre.len() {
                    let i = choose|i: int| 0 <= i < n - 1 && pre[k] == all[i];
                    assert(res[k] == all[i]);
                } else {
                    assert(res[k] == all[n - 1]);
                }
            }
            assert forall|a: int, b: int| 0 <= a < b < res.len() implies res[a].id != res[b].id by {
                if b == pre.len() {
                    let i = choose|i: int| 0 <= i < n - 1 && pre[a] == all[i];
                    assert(res[a] == all[i] && res[b] == all[n - 1]);
                }
            }
        }
    }
}

/// All records carry pairwise distinct ids.
pub open spec fn unique_ids(recs: Seq<ScoreRecord>) -> bool {
    forall|i: int, j: int| 0 <= i < j < recs.len() ==> recs[i].id != recs[j].id
}

/// Index `w` selects, among the indices satisfying `p`, the record every
/// other selected record beats: the worst of the selection.
pub open spec fn worst_among(recs: Seq<ScoreRecord>, p: spec_fn(int) -> bool, w: int) -> bool {
    0 <= w < recs.len() && p(w) && forall|j: int|
        0 <= j < recs.len() && p(j) && j != w ==> beats(recs[j], recs[w])
}

/// The best of a selection: it beats every other selected record.
pub open spec fn best_among(recs: Seq<ScoreRecord>, p: spec_fn(int) -> bool, w: int) -> bool {
    0 <= w < recs.len() && p(w) && forall|j: int|
        0 <= j < recs.len() && p(j) && j != w ==> beats(recs[w], recs[j])
}

/// `worst_among` restricted to indices below `n`.
spec fn worst_among_upto(recs: Seq<ScoreRecord>, p: spec_fn(int) -> bool, w: int, n: int) -> bool {
    0 <= w < n && w < recs.len() && p(w) && forall|j: int|
        0 <= j < n && j < recs.len() && p(j) && j != w ==> beats(recs[j], recs[w])
}

proof fn lemma_exists_worst_upto(recs: Seq<ScoreRecord>, p: spec_fn(int) -> bool, k: int, n: int)
    requires
        unique_ids(recs),
        0 <= k < n <= recs.len(),
        p(k),
    ensures
        exists|w: int| #[trigger] worst_among_upto(recs, p, w, n),
    decreases n,
{
    if k == n - 1 {
        if exists|j: int| 0 <= j < n - 1 && #[trigger] p(j) {
            let j = choose|j: int| 0 <= j < n - 1 && #[trigger] p(j);
            lemma_exists_worst_upto(recs, p, j, n - 1);
            let w = choose|w: int| #[trigger] worst_among_upto(recs, p, w, n - 1);
            if beats(recs[k], recs[w]) {
                assert(worst_among_upto(recs, p, w, n));
            } else {
                lemma_beats_total(recs[w], recs[k]);
                assert forall|j2: int|
                    0 <= j2 < n && j2 < recs.len() && #[trigger] p(j2) && j2 != k implies beats(
                    recs[j2],
                    recs[k],
                ) by {
                    if j2 != w {
                        lemma_beats_trans(recs[j2], recs[w], recs[k]);
                    }
                }
                assert(worst_among_upto(recs, p, k, n));
            }
        } else {
            assert(worst_among_upto(recs, p, k, n));
        }
    } else {
        lemma_exists_worst_upto(recs, p, k, n - 1);
        let w = choose|w: int| #[trigger] worst_among_upto(recs, p, w, n - 1);
        if p(n - 1) {
            if beats(recs[n - 1], recs[w]) {
                assert(worst_among_upto(recs, p, w, n));
            } else {
                lemma_beats_total(recs[w], recs[n - 1]);
                assert forall|j2: int|
                    0 <= j2 < n && j2 < recs.len() && #[trigger] p(j2) && j2 != n - 1 implies beats(
                    recs[j2],
                    recs[n - 1],
                ) by {
                    if j2 != w {
                        lemma_beats_trans(recs[j2], recs[w], recs[n - 1]);
                    }
                }
                assert(worst_among_upto(recs, p, n - 1, n));
            }
        } else {
            assert(worst_among_upto(recs, p, w, n));
        }
    }
}

/// A nonempty selection of records with distinct ids has a worst element.
pub proof fn lemma_exists_worst(recs: Seq<ScoreRecord>, p: spec_fn(int) -> bool)
    requires
        unique_ids(recs),
        exists|i: int| 0 <= i < recs.len() && #[trigger] p(i),
    ensures
        exists|w: int| #[trigger] worst_among(recs, p, w),
{
    let k = choose|i: int| 0 <= i < recs.len() && #[trigger] p(i);
    lemma_exists_worst_upto(recs, p, k, recs.len() as int);
    let w = choose|w: int| #[trigger] worst_among_upto(recs, p, w, recs.len() as int);
    assert(worst_among(recs, p, w));
}

/// The participant's worst record for a course: `worst_among` under the
/// course-and-participant selection.
pub open spec fn is_worst_mine(
    recs: Seq<ScoreRecord>,
    course: Seq<char>,
    school_id: u128,
    w: int,
) -> bool {
    worst_among(recs, scope_pred(recs, course, school_id), w)
}

/// The worst of a selection is unique.
pub proof fn lemma_worst_unique(
    recs: Seq<ScoreRecord>,
    p: spec_fn(int) -> bool,
    w1: int,
    w2: int,
)
    requires
        unique_ids(recs),
        worst_among(recs, p, w1),
        worst_among(recs, p, w2),
    ensures
        w1 == w2,
{
    if w1 != w2 {
        assert(beats(recs[w1], recs[w2]));
        assert(beats(recs[w2], recs[w1]));
    }
}

} // verus!
