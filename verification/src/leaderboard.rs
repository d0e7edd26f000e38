//! The leaderboard query service: the ordered top-N view for a course
//! and participant group, read straight off the store.

use vstd::prelude::*;
use crate::counting::count_where;
use crate::record::{beats, beats_exec, unique_ids, ScoreRecord};
use crate::store::RankingStore;
use crate::text::str_eq;

verus! {

/// Strictly ordered by the canonical order: fastest first.
pub open spec fn sorted_canonical(s: Seq<ScoreRecord>) -> bool {
    forall|i: int, j: int| 0 <= i < j < s.len() ==> beats(s[i], s[j])
}

/// The record belongs to the course and to the group view being read.
pub open spec fn in_view(r: ScoreRecord, course: Seq<char>, school: Seq<char>, sid: u128) -> bool {
    r.course@ == course && r.school@ == school && r.school_id == sid
}

/// The index predicate for `in_view` over the stored rows.
pub open spec fn view_pred(
    recs: Seq<ScoreRecord>,
    course: Seq<char>,
    school: Seq<char>,
    sid: u128,
) -> spec_fn(int) -> bool {
    |i: int| in_view(recs[i], course, school, sid)
}

/// How many stored rows fall in the view.
pub open spec fn view_count(
    recs: Seq<ScoreRecord>,
    course: Seq<char>,
    school: Seq<char>,
    sid: u128,
) -> nat {
    count_where(recs.len() as int, view_pred(recs, course, school, sid))
}

/// The best `limit` of `items` in canonical order. The result is sorted,
/// its records come from `items`, and every item left out is beaten by
/// everything returned.
fn top_of(items: Vec<ScoreRecord>, limit: usize) -> (r: Vec<ScoreRecord>)
    requires
        unique_ids(items@),
    ensures
        r@.len() == (if limit <= items@.len() {
            limit as int
        } else {
            items@.len() as int
        }),
        sorted_canonical(r@),
        unique_ids(r@),
        forall|k: int| 0 <= k < r@.len() ==> items@.contains(#[trigger] r@[k]),
        forall|i: int|
            0 <= i < items@.len() && !r@.contains(#[trigger] items@[i]) ==> forall|k: int|
                0 <= k < r@.len() ==> beats(r@[k], items@[i]),
{
    let ghost orig = items@;
    let mut rest = items;
    let mut out: Vec<ScoreRecord> = Vec::new();
    proof {
        assert forall|j: int| 0 <= j < rest@.len() implies orig.contains(#[trigger] rest@[j]) by {
            assert(rest@[j] == orig[j]);
        }
        assert forall|i: int|
            0 <= i < orig.len() implies out@.contains(#[trigger] orig[i]) || rest@.contains(
            orig[i],
        ) by {
            assert(rest@[i] == orig[i]);
        }
    }
    while out.len() < limit && rest.len() > 0
        invariant
            unique_ids(rest@),
            unique_ids(out@),
            forall|k: int, j: int|
                0 <= k < out@.len() && 0 <= j < rest@.len() ==> (#[trigger] out@[k]).id != (
                #[trigger] rest@[j]).id,
            sorted_canonical(out@),
            forall|k: int, j: int|
                0 <= k < out@.len() && 0 <= j < rest@.len() ==> beats(
                    #[trigger] out@[k],
                    #[trigger] rest@[j],
                ),
            out@.len() + rest@.len() == orig.len(),
            out@.len() <= limit,
            forall|k: int| 0 <= k < out@.len() ==> orig.contains(#[trigger] out@[k]),
            forall|j: int| 0 <= j < rest@.len() ==> orig.contains(#[trigger] rest@[j]),
            forall|i: int|
                0 <= i < orig.len() ==> out@.contains(#[trigger] orig[i]) || rest@.contains(
                    orig[i],
                ),
        decreases rest@.len(),
    {
        let n = rest.len();
        let mut bi: usize = 0;
        let mut j: usize = 1;
        while j < n
            invariant
                n == rest@.len(),
                0 <= bi < j <= n,
                unique_ids(rest@),
                forall|j2: int| 0 <= j2 < j && j2 != bi ==> beats(rest@[bi as int], rest@[j2]),
            decreases n - j,
        {
            if beats_exec(&rest[j], &rest[bi]) {
                proof {
                    assert forall|j2: int| 0 <= j2 < j + 1 && j2 != j implies beats(
                        rest@[j as int],
                        rest@[j2],
                    ) by {
                        if j2 != bi {
                            crate::record::lemma_beats_trans(
                                rest@[j as int],
                                rest@[bi as int],
                                rest@[j2],
                            );
                        }
                    }
                }
                bi = j;
            } else {
                proof {
                    crate::record::lemma_beats_total(rest@[j as int], rest@[bi as int]);
                }
            }
            j = j + 1;
        }
        let ghost pre_rest = rest@;
        let ghost pre_out = out@;
        let best = rest.remove(bi);
        out.push(best);
        proof {
            let gbi = bi as int;
            assert(rest@ == pre_rest.remove(gbi));
            assert(out@ == pre_out.push(pre_rest[gbi]));
            assert forall|a: int, b: int| 0 <= a < b < rest@.len() implies rest@[a].id
                != rest@[b].id by {
                let a0 = if a < gbi {
                    a
                } else {
                    a + 1
                };
                let b0 = if b < gbi {
                    b
                } else {
                    b + 1
                };
                assert(rest@[a] == pre_rest[a0] && rest@[b] == pre_rest[b0]);
            }
            assert forall|k: int, j2: int|
                0 <= k < out@.len() && 0 <= j2 < rest@.len() implies (#[trigger] out@[k]).id != (
            #[trigger] rest@[j2]).id && beats(out@[k], rest@[j2]) by {
                let j0 = if j2 < gbi {
                    j2
                } else {
                    j2 + 1
                };
                assert(rest@[j2] == pre_rest[j0]);
                if k == out@.len() - 1 {
                    assert(out@[k] == pre_rest[gbi]);
                    assert(j0 != gbi);
                } else {
                    assert(out@[k] == pre_out[k]);
                }
            }
            assert forall|k: int| 0 <= k < out@.len() implies orig.contains(#[trigger] out@[k]) by {
                if k < pre_out.len() {
                    assert(out@[k] == pre_out[k]);
                } else {
                    assert(out@[k] == pre_rest[gbi]);
                }
            }
            assert forall|j2: int| 0 <= j2 < rest@.len() implies orig.contains(
                #[trigger] rest@[j2],
            ) by {
                let j0 = if j2 < gbi {
                    j2
                } else {
                    j2 + 1
                };
                assert(rest@[j2] == pre_rest[j0]);
            }
            assert forall|i: int|
                0 <= i < orig.len() implies out@.contains(#[trigger] orig[i]) || rest@.contains(
                orig[i],
            ) by {
                if pre_out.contains(orig[i]) {
                    let k = choose|k: int| 0 <= k < pre_out.len() && pre_out[k] == orig[i];
                    assert(out@[k] == orig[i]);
                } else {
                    let j2 = choose|j2: int| 0 <= j2 < pre_rest.len() && pre_rest[j2] == orig[i];
                    if j2 == gbi {
                        assert(out@[out@.len() - 1] == orig[i]);
                    } else {
                        let j3 = if j2 < gbi {
                            j2
                        } else {
                            j2 - 1
                        };
                        assert(rest@[j3] == orig[i]);
                    }
                }
            }
        }
    }
    proof {
        assert forall|i: int|
            0 <= i < orig.len() && !out@.contains(#[trigger] orig[i]) implies forall|k: int|
            0 <= k < out@.len() ==> beats(out@[k], orig[i]) by {
            let j = choose|j: int| 0 <= j < rest@.len() && rest@[j] == orig[i];
            assert(rest@[j] == orig[i]);
            assert forall|k: int| 0 <= k < out@.len() implies beats(out@[k], orig[i]) by {
                assert(beats(out@[k], rest@[j]));
            }
        }
    }
    out
}

impl RankingStore {
    /// The ordered top-`limit` view for a course and group: sorted by the
    /// canonical order (time ascending), holding exactly the best stored
    /// rows of that view, and reflecting the latest committed state.
    pub fn get_leaderboard(
        &self,
        course: &str,
        school: &str,
        school_id: u128,
        limit: usize,
    ) -> (r: Vec<ScoreRecord>)
        requires
            self.wf(),
        ensures
            sorted_canonical(r@),
            forall|i: int, j: int|
                0 <= i < j < r@.len() ==> (#[trigger] r@[i]).time_millis <= (
                #[trigger] r@[j]).time_millis,
            r@.len() == (if limit as int <= view_count(self.recs(), course@, school@, school_id) {
                limit as int
            } else {
                view_count(self.recs(), course@, school@, school_id) as int
            }),
            forall|k: int|
                0 <= k < r@.len() ==> in_view(#[trigger] r@[k], course@, school@, school_id)
                    && exists|i: int|
                    0 <= i < self.recs().len() && r@[k] == self.recs()[i],
            unique_ids(r@),
            forall|i: int|
                0 <= i < self.recs().len() && in_view(
                    #[trigger] self.recs()[i],
                    course@,
                    school@,
                    school_id,
                ) && !r@.contains(self.recs()[i]) ==> forall|k: int|
                    0 <= k < r@.len() ==> beats(r@[k], self.recs()[i]),
    {
        let ghost recs = self.recs();
        proof {
            self.lemma_wf_unique();
        }
        let all = self.records_snapshot();
        let n = all.len();
        let mut picked: Vec<ScoreRecord> = Vec::new();
        let mut i: usize = 0;
        while i < n
            invariant
                n == all@.len(),
                all@ == recs,
                unique_ids(recs),
                0 <= i <= n,
                picked@.len() == count_where(i as int, view_pred(recs, course@, school@, school_id)),
                forall|k: int|
                    0 <= k < picked@.len() ==> in_view(
                        #[trigger] picked@[k],
                        course@,
                        school@,
                        school_id,
                    ) && exists|i2: int| 0 <= i2 < i && picked@[k] == recs[i2],
                unique_ids(picked@),
                forall|i2: int|
                    0 <= i2 < i && in_view(#[trigger] recs[i2], course@, school@, school_id)
                        ==> picked@.contains(recs[i2]),
            decreases n - i,
        {
            let hit = str_eq(all[i].course.as_str(), course) && str_eq(
                all[i].school.as_str(),
                school,
            ) && all[i].school_id == school_id;
            proof {
                let p = view_pred(recs, course@, school@, school_id);
                assert(hit == p(i as int));
                assert(count_where(i as int + 1, p) == count_where(i as int, p) + (if p(i as int) {
                    1nat
                } else {
                    0nat
                }));
            }
            proof {
                if !(view_pred(recs, course@, school@, school_id)(i as int)) {
                    assert forall|i2: int|
                        0 <= i2 < i + 1 && in_view(
                            #[trigger] recs[i2],
                            course@,
                            school@,
                            school_id,
                        ) implies picked@.contains(recs[i2]) by {
                        let k = choose|k: int| 0 <= k < picked@.len() && picked@[k] == recs[i2];
                        assert(picked@[k] == recs[i2]);
                    }
                }
            }
            if hit {
                let ghost pre = picked@;
                let rec = all[i].clone();
                picked.push(rec);
                proof {
                    assert(picked@ == pre.push(recs[i as int]));
                    assert forall|a: int, b: int| 0 <= a < b < picked@.len() implies picked@[a].id
                        != picked@[b].id by {
                        if b == picked@.len() - 1 {
                            let i2 = choose|i2: int| 0 <= i2 < i && pre[a] == recs[i2];
                            assert(picked@[a] == recs[i2]);
                            assert(picked@[b] == recs[i as int]);
                        }
                    }
                    assert forall|i2: int|
                        0 <= i2 < i + 1 && in_view(
                            #[trigger] recs[i2],
                            course@,
                            school@,
                            school_id,
                        ) implies picked@.contains(recs[i2]) by {
                        if i2 == i as int {
                            assert(picked@[picked@.len() - 1] == recs[i2]);
                        } else {
                            let k = choose|k: int| 0 <= k < pre.len() && pre[k] == recs[i2];
                            assert(picked@[k] == recs[i2]);
                        }
                    }
                }
            }
            i = i + 1;
        }
        let r = top_of(picked, limit);
        proof {
            assert forall|a: int, b: int|
                0 <= a < b < r@.len() implies (#[trigger] r@[a]).time_millis <= (
            #[trigger] r@[b]).time_millis by {
                assert(beats(r@[a], r@[b]));
            }
            assert forall|i2: int|
                0 <= i2 < recs.len() && in_view(#[trigger] recs[i2], course@, school@, school_id)
                    && !r@.contains(recs[i2]) implies forall|k: int|
                0 <= k < r@.len() ==> beats(r@[k], recs[i2]) by {
                let j = choose|j: int| 0 <= j < picked@.len() && picked@[j] == recs[i2];
                assert(picked@[j] == recs[i2]);
            }
        }
        r
    }
}

} // verus!
