//! The submission policy engine: the one place the leaderboard
//! invariants are enforced. Each policy is a variant deciding, from the
//! current standings, whether a candidate is inserted, replaces the
//! participant's worst score, or is refused — atomically on the store.

use vstd::prelude::*;
use crate::counting::{count_where, lemma_count_eq, lemma_count_pos};
use crate::normalize::{
    normalize_course, normalize_name, normalize_school, normalized_course, normalized_name,
    normalized_school,
};
use crate::record::{
    beats, course_count, course_pred, in_course, in_scope, is_worst_mine, mine_count, num_beating,
    pruned_upto, scope_pred, unique_ids, worst_among, ScoreRecord,
};
use crate::store::{DeleteOutcome, RankingStore};

verus! {

/// A submitted candidate score, before normalization.
pub struct ScoreSubmission {
    pub name: String,
    pub course: String,
    pub school: String,
    pub school_id: u128,
    pub time_millis: u64,
}

/// Which invariant the engine enforces; chosen once at deployment.
#[derive(Clone, Copy, Debug, PartialEq, Eq, Structural)]
pub enum SubmissionPolicy {
    /// At most one record per `(course, participant)`: a second
    /// submission is refused outright.
    Uniqueness,
    /// A participant holds at most `cap` records per course; at the cap a
    /// strictly better time replaces the participant's worst record.
    BestOfN { cap: usize },
    /// A course holds at most `cap` records in all: every submission is
    /// inserted, then the course is pruned to its top `cap` by rank.
    BoundedCourse { cap: usize },
}

/// What one submission came to.
pub enum SubmissionOutcome {
    Accepted { id: u64 },
    Conflict { message: String },
    Rejected { message: String },
    StoreError { message: String },
}

pub open spec fn is_accepted(out: SubmissionOutcome) -> bool {
    match out {
        SubmissionOutcome::Accepted { .. } => true,
        _ => false,
    }
}

pub open spec fn is_conflict(out: SubmissionOutcome) -> bool {
    match out {
        SubmissionOutcome::Conflict { .. } => true,
        _ => false,
    }
}

pub open spec fn is_rejected(out: SubmissionOutcome) -> bool {
    match out {
        SubmissionOutcome::Rejected { .. } => true,
        _ => false,
    }
}

pub open spec fn is_store_error(out: SubmissionOutcome) -> bool {
    match out {
        SubmissionOutcome::StoreError { .. } => true,
        _ => false,
    }
}

/// `rec` is the row that submitting `sub` would store: fields normalized,
/// the store's fresh id, and the server clock.
pub open spec fn candidate_record(
    sub: ScoreSubmission,
    rec: ScoreRecord,
    id: u64,
    now: u64,
) -> bool {
    &&& rec.id == id
    &&& rec.name@ == normalized_name(sub.name@)
    &&& rec.course@ == normalized_course(sub.course@)
    &&& rec.school@ == normalized_school(sub.school@)
    &&& rec.school_id == sub.school_id
    &&& rec.time_millis == sub.time_millis
    &&& rec.completed_at == now
}

/// The index of the participant's worst record, where one exists.
pub open spec fn worst_mine_idx(recs: Seq<ScoreRecord>, course: Seq<char>, sid: u128) -> int {
    choose|w: int| is_worst_mine(recs, course, sid, w)
}

/// Uniqueness mode: refuse when the participant already holds a record
/// for the course, insert otherwise.
pub open spec fn uniqueness_step(recs: Seq<ScoreRecord>, rec: ScoreRecord) -> (Seq<ScoreRecord>,
    bool,
) {
    if mine_count(recs, rec.course@, rec.school_id) > 0 {
        (recs, false)
    } else {
        (recs.push(rec), true)
    }
}

/// Best-of-N mode: under the cap, insert; at the cap, a strictly better
/// time replaces the participant's worst record, anything else is
/// refused and the store is untouched.
pub open spec fn best_of_n_step(recs: Seq<ScoreRecord>, rec: ScoreRecord, cap: nat) -> (Seq<
    ScoreRecord,
>, bool) {
    let cnt = mine_count(recs, rec.course@, rec.school_id);
    let w = worst_mine_idx(recs, rec.course@, rec.school_id);
    if cnt < cap {
        (recs.push(rec), true)
    } else if cnt > 0 && rec.time_millis < recs[w].time_millis {
        (recs.remove(w).push(rec), true)
    } else {
        (recs, false)
    }
}

/// Bounded-course mode: insert, then prune the course to its top `cap`.
pub open spec fn bounded_step(recs: Seq<ScoreRecord>, rec: ScoreRecord, cap: nat) -> (Seq<
    ScoreRecord,
>, bool) {
    let all = recs.push(rec);
    (pruned_upto(all, rec.course@, cap, all.len() as int), true)
}

/// One submission as a transition on the stored rows: the rows after, and
/// whether the candidate was accepted.
pub open spec fn submit_step(recs: Seq<ScoreRecord>, pol: SubmissionPolicy, rec: ScoreRecord) -> (
    Seq<ScoreRecord>,
    bool,
) {
    match pol {
        SubmissionPolicy::Uniqueness => uniqueness_step(recs, rec),
        SubmissionPolicy::BestOfN { cap } => best_of_n_step(recs, rec, cap as nat),
        SubmissionPolicy::BoundedCourse { cap } => bounded_step(recs, rec, cap as nat),
    }
}

/// When best-of-N mode owes an acceptance: the participant is under the
/// cap, or the candidate strictly beats their worst time.
pub open spec fn best_of_n_accepts(
    recs: Seq<ScoreRecord>,
    course: Seq<char>,
    sid: u128,
    t: u64,
    cap: nat,
) -> bool {
    mine_count(recs, course, sid) < cap || (exists|w: int|
        #[trigger] is_worst_mine(recs, course, sid, w) && t < recs[w].time_millis)
}

impl SubmissionPolicy {
    /// Evaluate the candidate against the current standings and decide,
    /// inside one transaction, whether it is stored. The returned outcome
    /// says exactly what happened:
    /// - `Accepted(id)`: the normalized candidate was stored under `id`,
    ///   and the store stepped by this policy's transition;
    /// - `Conflict`: uniqueness mode and the participant already held a
    ///   record for the course; the store is unchanged;
    /// - `Rejected`: best-of-N mode at the cap and the candidate did not
    ///   strictly beat the participant's worst time; unchanged;
    /// - `StoreError` is never returned by this in-memory engine.
    pub fn submit(&self, store: &mut RankingStore, sub: &ScoreSubmission, now: u64) -> (out:
        SubmissionOutcome)
        requires
            old(store).wf(),
            old(store).fresh_id() < u64::MAX,
        ensures
            final(store).wf(),
            exists|rec: ScoreRecord|
                #[trigger] candidate_record(*sub, rec, old(store).fresh_id(), now)
                    && final(store).recs() == submit_step(old(store).recs(), *self, rec).0
                    && is_accepted(out) == submit_step(old(store).recs(), *self, rec).1,
            match out {
                SubmissionOutcome::Accepted { id } => id == old(store).fresh_id()
                    && final(store).fresh_id() == old(store).fresh_id() + 1,
                _ => final(store).recs() == old(store).recs()
                    && final(store).fresh_id() == old(store).fresh_id(),
            },
            is_conflict(out) <==> (*self == SubmissionPolicy::Uniqueness && mine_count(
                old(store).recs(),
                normalized_course(sub.course@),
                sub.school_id,
            ) > 0),
            is_rejected(out) <==> match *self {
                SubmissionPolicy::BestOfN { cap } => !best_of_n_accepts(
                    old(store).recs(),
                    normalized_course(sub.course@),
                    sub.school_id,
                    sub.time_millis,
                    cap as nat,
                ),
                _ => false,
            },
            !is_store_error(out),
    {
        let name = normalize_name(sub.name.as_str());
        let course = normalize_course(sub.course.as_str());
        let school = normalize_school(sub.school.as_str());
        let ghost old_recs = store.recs();
        let ghost c = course@;
        let ghost sid = sub.school_id;
        let ghost grec = ScoreRecord {
            id: store.fresh_id(),
            name: name,
            course: course,
            school: school,
            school_id: sub.school_id,
            time_millis: sub.time_millis,
            completed_at: now,
        };
        proof {
            store.lemma_wf_unique();
            assert(unique_ids(old_recs));
            assert(candidate_record(*sub, grec, old(store).fresh_id(), now));
        }
        match self {
            SubmissionPolicy::Uniqueness => {
                let cnt = store.count_for(course.as_str(), sub.school_id);
                if cnt > 0 {
                    proof {
                        assert(submit_step(old_recs, *self, grec) == (old_recs, false));
                    }
                    SubmissionOutcome::Conflict {
                        message: String::from_str(
                            "A score for this course has already been submitted.",
                        ),
                    }
                } else {
                    let id = store.insert(
                        name,
                        course,
                        school,
                        sub.school_id,
                        sub.time_millis,
                        now,
                    );
                    proof {
                        assert(store.recs() == old_recs.push(grec));
                        assert(submit_step(old_recs, *self, grec) == (old_recs.push(grec), true));
                    }
                    SubmissionOutcome::Accepted { id }
                }
            },
            SubmissionPolicy::BestOfN { cap } => {
                let capv: usize = *cap;
                let ghost capn = capv as nat;
                let cnt = store.count_for(course.as_str(), sub.school_id);
                if cnt < capv {
                    let id = store.insert(
                        name,
                        course,
                        school,
                        sub.school_id,
                        sub.time_millis,
                        now,
                    );
                    proof {
                        assert(submit_step(old_recs, *self, grec) == (old_recs.push(grec), true));
                        assert(best_of_n_accepts(old_recs, c, sid, sub.time_millis, capn));
                    }
                    SubmissionOutcome::Accepted { id }
                } else {
                    let worst = store.query_worst(course.as_str(), sub.school_id);
                    match worst {
                        Some(w) => {
                            let ghost wi = choose|wi: int|
                                #[trigger] is_worst_mine(old_recs, c, sid, wi) && w
                                    == old_recs[wi];
                            proof {
                                assert(is_worst_mine(old_recs, c, sid, wi) && w == old_recs[wi]);
                                assert(in_scope(old_recs[wi], c, sid));
                                lemma_count_pos(
                                    old_recs.len() as int,
                                    scope_pred(old_recs, c, sid),
                                    wi,
                                );
                                let widx = worst_mine_idx(old_recs, c, sid);
                                assert(is_worst_mine(old_recs, c, sid, widx));
                                crate::record::lemma_worst_unique(
                                    old_recs,
                                    scope_pred(old_recs, c, sid),
                                    wi,
                                    widx,
                                );
                            }
                            if sub.time_millis < w.time_millis {
                                let wid = w.id;
                                let id = store.insert(
                                    name,
                                    course,
                                    school,
                                    sub.school_id,
                                    sub.time_millis,
                                    now,
                                );
                                let ghost mid = store.recs();
                                proof {
                                    store.lemma_wf_unique();
                                    assert(unique_ids(mid));
                                    assert(mid == old_recs.push(grec));
                                    assert(mid[wi] == old_recs[wi]);
                                    assert((mid[wi]).id == wid && mid[wi].school_id
                                        == sub.school_id);
                                }
                                let del = store.delete_by_id(wid, sub.school_id);
                                proof {
                                    assert(del == DeleteOutcome::Deleted);
                                    let di = choose|i: int|
                                        0 <= i < mid.len() && (#[trigger] mid[i]).id == wid
                                            && mid[i].school_id == sub.school_id && store.recs()
                                            == mid.remove(i);
                                    if di != wi {
                                        assert(mid[di].id == mid[wi].id);
                                        assert(false);
                                    }
                                    assert(store.recs() == mid.remove(wi));
                                    assert(store.recs() =~= old_recs.remove(wi).push(grec));
                                    assert(submit_step(old_recs, *self, grec) == (
                                        old_recs.remove(wi).push(grec),
                                        true,
                                    ));
                                    assert(best_of_n_accepts(old_recs, c, sid, sub.time_millis, capn));
                                }
                                SubmissionOutcome::Accepted { id }
                            } else {
                                proof {
                                    assert(submit_step(old_recs, *self, grec) == (old_recs, false));
                                    assert forall|w2: int|
                                        #[trigger] is_worst_mine(old_recs, c, sid, w2) implies !(
                                    sub.time_millis < old_recs[w2].time_millis) by {
                                        crate::record::lemma_worst_unique(
                                            old_recs,
                                            scope_pred(old_recs, c, sid),
                                            wi,
                                            w2,
                                        );
                                    }
                                    assert(!best_of_n_accepts(
                                        old_recs,
                                        c,
                                        sid,
                                        sub.time_millis,
                                        capn,
                                    ));
                                }
                                SubmissionOutcome::Rejected {
                                    message: String::from_str(
                                        "Score is not fast enough to replace your slowest time for this course.",
                                    ),
                                }
                            }
                        },
                        None => {
                            proof {
                                assert(mine_count(old_recs, c, sid) == 0);
                                assert(submit_step(old_recs, *self, grec) == (old_recs, false));
                                assert forall|w2: int|
                                    !(#[trigger] is_worst_mine(old_recs, c, sid, w2)) by {
                                    if is_worst_mine(old_recs, c, sid, w2) {
                                        lemma_count_pos(
                                            old_recs.len() as int,
                                            scope_pred(old_recs, c, sid),
                                            w2,
                                        );
                                    }
                                }
                                assert(!best_of_n_accepts(old_recs, c, sid, sub.time_millis, capn));
                            }
                            SubmissionOutcome::Rejected {
                                message: String::from_str(
                                    "Score is not fast enough to replace your slowest time for this course.",
                                ),
                            }
                        },
                    }
                }
            },
            SubmissionPolicy::BoundedCourse { cap } => {
                let capv: usize = *cap;
                let course2 = course.clone();
                let id = store.insert(
                    name,
                    course,
                    school,
                    sub.school_id,
                    sub.time_millis,
                    now,
                );
                store.prune_course(course2.as_str(), capv);
                proof {
                    assert(store.recs() == pruned_upto(
                        old_recs.push(grec),
                        c,
                        capv as nat,
                        old_recs.len() as int + 1,
                    ));
                    assert(submit_step(old_recs, *self, grec).0 == store.recs());
                    assert(submit_step(old_recs, *self, grec).1);
                }
                SubmissionOutcome::Accepted { id }
            },
        }
    }
}

/// The index predicate selecting the records a bounded-course prune keeps
/// of the pruned course: those fewer than `cap` course records beat.
pub open spec fn kept_pred(all: Seq<ScoreRecord>, course: Seq<char>, cap: nat) -> spec_fn(
    int,
) -> bool {
    |i: int| in_course(all[i], course) && num_beating(all, all[i]) < cap
}

proof fn lemma_pruned_course_count(all: Seq<ScoreRecord>, course: Seq<char>, cap: nat, n: int)
    requires
        0 <= n <= all.len(),
    ensures
        course_count(pruned_upto(all, course, cap, n), course) == count_where(
            n,
            kept_pred(all, course, cap),
        ),
    decreases n,
{
    if n > 0 {
        lemma_pruned_course_count(all, course, cap, n - 1);
        let pre = pruned_upto(all, course, cap, n - 1);
        let res = pruned_upto(all, course, cap, n);
        let r = all[n - 1];
        if !in_course(r, course) || num_beating(all, r) < cap {
            lemma_count_eq(
                pre.len() as int,
                course_pred(pre.push(r), course),
                course_pred(pre, course),
            );
        }
    }
}

proof fn lemma_pruned_other_count(
    all: Seq<ScoreRecord>,
    course: Seq<char>,
    cap: nat,
    n: int,
    d: Seq<char>,
)
    requires
        0 <= n <= all.len(),
        d != course,
    ensures
        course_count(pruned_upto(all, course, cap, n), d) == count_where(n, course_pred(all, d)),
    decreases n,
{
    if n > 0 {
        lemma_pruned_other_count(all, course, cap, n - 1, d);
        let pre = pruned_upto(all, course, cap, n - 1);
        let r = all[n - 1];
        if !in_course(r, course) || num_beating(all, r) < cap {
            lemma_count_eq(pre.len() as int, course_pred(pre.push(r), d), course_pred(pre, d));
        }
    }
}

proof fn lemma_kept_le_cap(all: Seq<ScoreRecord>, course: Seq<char>, cap: nat)
    requires
        unique_ids(all),
    ensures
        count_where(all.len() as int, kept_pred(all, course, cap)) <= cap,
{
    let n = all.len() as int;
    let p = kept_pred(all, course, cap);
    if count_where(n, p) > cap {
        crate::counting::lemma_count_witness(n, p);
        crate::record::lemma_exists_worst(all, p);
        let w = choose|w: int| worst_among(all, p, w);
        let q = |i: int| p(i) && i != w;
        crate::counting::lemma_count_without(n, p, w);
        let b = crate::record::beats_in_course_pred(all, all[w].course@, all[w]);
        assert forall|i: int| 0 <= i < n && #[trigger] q(i) implies b(i) by {
            assert(beats(all[i], all[w]));
            assert(all[w].course@ == course);
        }
        crate::counting::lemma_count_mono(n, q, b);
        assert(num_beating(all, all[w]) >= count_where(n, q));
        assert(p(w));
        assert(false);
    }
}

/// Bounded size: in bounded-course mode a submission leaves its own
/// course holding at most `cap` records and every other course exactly
/// what it held, so after any sequence of submissions from an empty
/// store no course ever exceeds the cap.
pub proof fn lemma_bounded_size(recs: Seq<ScoreRecord>, rec: ScoreRecord, cap: nat, d: Seq<char>)
    requires
        unique_ids(recs),
        forall|j: int| 0 <= j < recs.len() ==> (#[trigger] recs[j]).id != rec.id,
        course_count(recs, d) <= cap,
    ensures
        course_count(bounded_step(recs, rec, cap).0, d) <= cap,
        bounded_step(recs, rec, cap).1,
{
    let all = recs.push(rec);
    let n = all.len() as int;
    assert(unique_ids(all));
    if d == rec.course@ {
        lemma_pruned_course_count(all, d, cap, n);
        lemma_kept_le_cap(all, d, cap);
    } else {
        lemma_pruned_other_count(all, rec.course@, cap, n, d);
        lemma_count_eq(n - 1, course_pred(all, d), course_pred(recs, d));
        assert(!in_course(rec, d));
        assert(count_where(n, course_pred(all, d)) == course_count(recs, d));
    }
}

proof fn lemma_unique_replace(recs: Seq<ScoreRecord>, w: int, rec: ScoreRecord)
    requires
        unique_ids(recs),
        0 <= w < recs.len(),
        forall|j: int| 0 <= j < recs.len() ==> (#[trigger] recs[j]).id != rec.id,
    ensures
        unique_ids(recs.remove(w).push(rec)),
        forall|k: int|
            0 <= k < recs.remove(w).push(rec).len() ==> (#[trigger] recs.remove(w).push(rec)[k]).id
                != recs[w].id,
{
    let res = recs.remove(w).push(rec);
    assert forall|a: int, b: int| 0 <= a < b < res.len() implies res[a].id != res[b].id by {
        let a0 = if a < w {
            a
        } else {
            a + 1
        };
        if b == res.len() - 1 {
            assert(res[a] == recs[a0]);
            assert(res[b] == rec);
        } else {
            let b0 = if b < w {
                b
            } else {
                b + 1
            };
            assert(res[a] == recs[a0]);
            assert(res[b] == recs[b0]);
        }
    }
    assert forall|k: int| 0 <= k < res.len() implies (#[trigger] res[k]).id != recs[w].id by {
        if k == res.len() - 1 {
            assert(res[k] == rec);
        } else {
            let k0 = if k < w {
                k
            } else {
                k + 1
            };
            assert(res[k] == recs[k0]);
            assert(k0 != w);
        }
    }
}

proof fn lemma_mine_count_replace(recs: Seq<ScoreRecord>, w: int, rec: ScoreRecord)
    requires
        0 <= w < recs.len(),
        in_scope(recs[w], rec.course@, rec.school_id),
    ensures
        mine_count(recs.remove(w).push(rec), rec.course@, rec.school_id) == mine_count(
            recs,
            rec.course@,
            rec.school_id,
        ),
{
    let c = rec.course@;
    let sid = rec.school_id;
    let n = recs.len() as int;
    let p = scope_pred(recs, c, sid);
    let m1 = recs.remove(w);
    let q = scope_pred(m1, c, sid);
    crate::counting::lemma_count_shift(n - 1, p, q, w);
    let res = m1.push(rec);
    let q2 = scope_pred(res, c, sid);
    lemma_count_eq(n - 1, q2, q);
    assert(q2(n - 1));
    assert(count_where(n, q2) == count_where(n - 1, q2) + 1);
}

/// Replacement correctness: at the per-course cap, a candidate strictly
/// faster than the participant's worst time is accepted, exactly that
/// worst record leaves the store, every other record stays, and the
/// participant's count is unchanged; a candidate no faster is refused
/// and the store is left exactly as it was.
pub proof fn lemma_replacement(recs: Seq<ScoreRecord>, rec: ScoreRecord, cap: nat, w: int)
    requires
        unique_ids(recs),
        forall|j: int| 0 <= j < recs.len() ==> (#[trigger] recs[j]).id != rec.id,
        cap >= 1,
        mine_count(recs, rec.course@, rec.school_id) >= cap,
        is_worst_mine(recs, rec.course@, rec.school_id, w),
    ensures
        rec.time_millis < recs[w].time_millis ==> best_of_n_step(recs, rec, cap) == (
            recs.remove(w).push(rec),
            true,
        ),
        rec.time_millis < recs[w].time_millis ==> forall|k: int|
            0 <= k < best_of_n_step(recs, rec, cap).0.len() ==> (#[trigger] best_of_n_step(
                recs,
                rec,
                cap,
            ).0[k]).id != recs[w].id,
        rec.time_millis < recs[w].time_millis ==> mine_count(
            best_of_n_step(recs, rec, cap).0,
            rec.course@,
            rec.school_id,
        ) == mine_count(recs, rec.course@, rec.school_id),
        rec.time_millis >= recs[w].time_millis ==> best_of_n_step(recs, rec, cap) == (recs, false),
{
    let c = rec.course@;
    let sid = rec.school_id;
    let widx = worst_mine_idx(recs, c, sid);
    assert(is_worst_mine(recs, c, sid, widx));
    crate::record::lemma_worst_unique(recs, scope_pred(recs, c, sid), w, widx);
    assert(widx == w);
    if rec.time_millis < recs[w].time_millis {
        assert(best_of_n_step(recs, rec, cap) == (recs.remove(w).push(rec), true));
        lemma_unique_replace(recs, w, rec);
        lemma_mine_count_replace(recs, w, rec);
    }
}

/// Concurrency race: with the participant at the cap, take two candidate
/// records, one strictly faster than the current worst time and one not.
/// Whichever order the two submissions are serialized in, exactly the
/// faster one is accepted, and the store ends with the participant still
/// holding exactly `cap` records: no double insert and no lost delete.
pub proof fn lemma_submission_race(
    recs: Seq<ScoreRecord>,
    r1: ScoreRecord,
    r2: ScoreRecord,
    cap: nat,
    w: int,
)
    requires
        unique_ids(recs),
        forall|j: int|
            0 <= j < recs.len() ==> (#[trigger] recs[j]).id != r1.id && recs[j].id != r2.id,
        r1.id != r2.id,
        r2.course@ == r1.course@,
        r2.school_id == r1.school_id,
        cap >= 1,
        mine_count(recs, r1.course@, r1.school_id) == cap,
        is_worst_mine(recs, r1.course@, r1.school_id, w),
        r1.time_millis < recs[w].time_millis,
        r2.time_millis >= recs[w].time_millis,
    ensures
        best_of_n_step(recs, r1, cap).1,
        !best_of_n_step(best_of_n_step(recs, r1, cap).0, r2, cap).1,
        best_of_n_step(best_of_n_step(recs, r1, cap).0, r2, cap).0 == best_of_n_step(
            recs,
            r1,
            cap,
        ).0,
        !best_of_n_step(recs, r2, cap).1,
        best_of_n_step(recs, r2, cap).0 == recs,
        best_of_n_step(best_of_n_step(recs, r2, cap).0, r1, cap).1,
        mine_count(
            best_of_n_step(best_of_n_step(recs, r1, cap).0, r2, cap).0,
            r1.course@,
            r1.school_id,
        ) == cap,
        mine_count(
            best_of_n_step(best_of_n_step(recs, r2, cap).0, r1, cap).0,
            r1.course@,
            r1.school_id,
        ) == cap,
{
    let c = r1.course@;
    let sid = r1.school_id;
    lemma_replacement(recs, r1, cap, w);
    let s1 = best_of_n_step(recs, r1, cap).0;
    assert(s1 == recs.remove(w).push(r1));
    lemma_unique_replace(recs, w, r1);
    assert(mine_count(s1, c, sid) == cap);

    // the faster submission first: the slower one then finds the cap
    // reached and every stored time at most its own, and is refused
    assert forall|w2: int| #[trigger] is_worst_mine(s1, c, sid, w2) implies s1[w2].time_millis
        <= r2.time_millis by {
        if w2 == s1.len() - 1 {
            assert(s1[w2] == r1);
        } else {
            let j = if w2 < w {
                w2
            } else {
                w2 + 1
            };
            assert(s1[w2] == recs[j]);
            assert(j != w);
            assert(in_scope(recs[j], c, sid));
            assert(beats(recs[j], recs[w]));
        }
    }
    let cnt1 = mine_count(s1, r2.course@, r2.school_id);
    assert(cnt1 == cap);
    crate::counting::lemma_count_witness(s1.len() as int, scope_pred(s1, c, sid));
    crate::record::lemma_exists_worst(s1, scope_pred(s1, c, sid));
    let we = choose|wx: int| #[trigger] worst_among(s1, scope_pred(s1, c, sid), wx);
    assert(worst_among(s1, scope_pred(s1, c, sid), we));
    assert(is_worst_mine(s1, r2.course@, r2.school_id, we));
    let wB = worst_mine_idx(s1, r2.course@, r2.school_id);
    assert(is_worst_mine(s1, r2.course@, r2.school_id, wB));
    assert(is_worst_mine(s1, c, sid, wB));
    assert(s1[wB].time_millis <= r2.time_millis);
    assert(best_of_n_step(s1, r2, cap) == (s1, false));

    // the slower submission first: it is refused with the store
    // untouched, and the faster one then replaces the worst as before
    let widx2 = worst_mine_idx(recs, r2.course@, r2.school_id);
    assert(is_worst_mine(recs, c, sid, widx2));
    crate::record::lemma_worst_unique(recs, scope_pred(recs, c, sid), w, widx2);
    assert(best_of_n_step(recs, r2, cap) == (recs, false));
    lemma_replacement(recs, r1, cap, w);
    assert(best_of_n_step(best_of_n_step(recs, r2, cap).0, r1, cap).1);
    lemma_mine_count_replace(recs, w, r1);
}

} // verus!
