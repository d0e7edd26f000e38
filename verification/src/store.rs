//! The score record store: a durable, indexed table of `ScoreRecord`s.
//! Every operation is atomic with respect to the store value it is given,
//! so a `&mut` call plays the role of one transaction.

use vstd::prelude::*;
use crate::counting::{count_where, lemma_count_zero};
use crate::record::{beats, beats_exec, in_scope, mine_count, scope_pred, unique_ids, ScoreRecord};
use crate::text::str_eq;

verus! {

/// Outcome of a guarded delete: either the guarded row was removed, or no
/// row matched the guard and the store is unchanged.
#[derive(Clone, Copy, Debug, PartialEq, Eq, Structural)]
pub enum DeleteOutcome {
    Deleted,
    NotFound,
}

/// The table of accepted submissions. Ids are store-assigned, unique and
/// immutable; `next_id` is the id the next insert will take.
pub struct RankingStore {
    records: Vec<ScoreRecord>,
    next_id: u64,
}

impl RankingStore {
    /// The stored rows, in insertion order.
    pub closed spec fn recs(&self) -> Seq<ScoreRecord> {
        self.records@
    }

    /// The id the next accepted insert will be assigned.
    pub closed spec fn fresh_id(&self) -> u64 {
        self.next_id
    }

    /// Well-formedness: ids are pairwise distinct and below `next_id`.
    pub closed spec fn wf(&self) -> bool {
        unique_ids(self.records@) && forall|i: int|
            0 <= i < self.records@.len() ==> self.records@[i].id < self.next_id
    }

    pub proof fn lemma_wf_unique(&self)
        requires
            self.wf(),
        ensures
            unique_ids(self.recs()),
    {
    }

    pub fn new() -> (s: Self)
        ensures
            s.wf(),
            s.recs() == Seq::<ScoreRecord>::empty(),
            s.fresh_id() == 0,
    {
        let s = RankingStore { records: Vec::new(), next_id: 0 };
        proof {
            assert(s.records@ =~= Seq::<ScoreRecord>::empty());
        }
        s
    }

    /// Insert a row, assigning it the next fresh id, and return that id.
    pub fn insert(
        &mut self,
        name: String,
        course: String,
        school: String,
        school_id: u128,
        time_millis: u64,
        completed_at: u64,
    ) -> (id: u64)
        requires
            old(self).wf(),
            old(self).fresh_id() < u64::MAX,
        ensures
            final(self).wf(),
            id == old(self).fresh_id(),
            final(self).fresh_id() == old(self).fresh_id() + 1,
            final(self).recs().len() == old(self).recs().len() + 1,
            final(self).recs() == old(self).recs().push(
                ScoreRecord {
                    id: old(self).fresh_id(),
                    name,
                    course,
                    school,
                    school_id,
                    time_millis,
                    completed_at,
                },
            ),
    {
        let id = self.next_id;
        let rec = ScoreRecord { id, name, course, school, school_id, time_millis, completed_at };
        self.records.push(rec);
        self.next_id = self.next_id + 1;
        id
    }

    /// Delete the row with the given id, guarded by the participant that
    /// must own it. A miss leaves the store unchanged and is reported.
    pub fn delete_by_id(&mut self, id: u64, school_id: u128) -> (out: DeleteOutcome)
        requires
            old(self).wf(),
        ensures
            final(self).wf(),
            final(self).fresh_id() == old(self).fresh_id(),
            (exists|i: int|
                0 <= i < old(self).recs().len() && (#[trigger] old(self).recs()[i]).id == id && old(
                    self,
                ).recs()[i].school_id == school_id) ==> {
                &&& out == DeleteOutcome::Deleted
                &&& exists|i: int|
                    0 <= i < old(self).recs().len() && (#[trigger] old(self).recs()[i]).id == id
                        && old(self).recs()[i].school_id == school_id && final(self).recs() == old(
                        self,
                    ).recs().remove(i)
            },
            (forall|i: int|
                0 <= i < old(self).recs().len() ==> !((#[trigger] old(self).recs()[i]).id == id
                    && old(self).recs()[i].school_id == school_id)) ==> out
                == DeleteOutcome::NotFound && final(self).recs() == old(self).recs(),
    {
        let n = self.records.len();
        let mut i: usize = 0;
        while i < n
            invariant
                n == self.records@.len(),
                0 <= i <= n,
                self.wf(),
                *self == *old(self),
                forall|j: int|
                    0 <= j < i ==> !((#[trigger] self.records@[j]).id == id
                        && self.records@[j].school_id == school_id),
            decreases n - i,
        {
            if self.records[i].id == id && self.records[i].school_id == school_id {
                let ghost gi = i as int;
                let ghost pre = self.records@;
                self.records.remove(i);
                proof {
                    assert forall|a: int, b: int|
                        0 <= a < b < self.records@.len() implies self.records@[a].id
                        != self.records@[b].id by {
                        let a0 = if a < gi {
                            a
                        } else {
                            a + 1
                        };
                        let b0 = if b < gi {
                            b
                        } else {
                            b + 1
                        };
                        assert(self.records@[a] == pre[a0]);
                        assert(self.records@[b] == pre[b0]);
                    }
                    assert forall|a: int| 0 <= a < self.records@.len() implies self.records@[a].id
                        < self.next_id by {
                        let a0 = if a < gi {
                            a
                        } else {
                            a + 1
                        };
                        assert(self.records@[a] == pre[a0]);
                    }
                    assert((old(self).recs()[gi]).id == id && old(self).recs()[gi].school_id
                        == school_id);
                    assert(self.recs() == old(self).recs().remove(gi));
                }
                return DeleteOutcome::Deleted;
            }
            i = i + 1;
        }
        DeleteOutcome::NotFound
    }

    /// How many rows the participant holds for the course.
    pub fn count_for(&self, course: &str, school_id: u128) -> (cnt: usize)
        ensures
            cnt == mine_count(self.recs(), course@, school_id),
    {
        let ghost p = scope_pred(self.records@, course@, school_id);
        let n = self.records.len();
        let mut cnt: usize = 0;
        let mut i: usize = 0;
        while i < n
            invariant
                n == self.records@.len(),
                0 <= i <= n,
                cnt == count_where(i as int, scope_pred(self.records@, course@, school_id)),
                cnt <= i,
            decreases n - i,
        {
            let is_mine = str_eq(self.records[i].course.as_str(), course)
                && self.records[i].school_id == school_id;
            proof {
                let p = scope_pred(self.records@, course@, school_id);
                assert(is_mine == in_scope(self.records@[i as int], course@, school_id));
                assert(is_mine == p(i as int));
                assert(count_where(i as int + 1, p) == count_where(i as int, p) + (if p(i as int) {
                    1nat
                } else {
                    0nat
                }));
            }
            if is_mine {
                cnt = cnt + 1;
            }
            i = i + 1;
        }
        cnt
    }

    /// The id the next accepted insert will take.
    pub fn next_fresh_id(&self) -> (r: u64)
        ensures
            r == self.fresh_id(),
    {
        self.next_id
    }

    /// A copy of all stored rows, in insertion order.
    pub fn records_snapshot(&self) -> (v: Vec<ScoreRecord>)
        ensures
            v@ == self.recs(),
    {
        let n = self.records.len();
        let mut v: Vec<ScoreRecord> = Vec::new();
        let mut i: usize = 0;
        while i < n
            invariant
                n == self.records@.len(),
                0 <= i <= n,
                v@ == self.records@.subrange(0, i as int),
            decreases n - i,
        {
            let rec = self.records[i].clone();
            v.push(rec);
            proof {
                assert(v@ =~= self.records@.subrange(0, i + 1));
            }
            i = i + 1;
        }
        proof {
            assert(v@ =~= self.records@);
        }
        v
    }

    /// Delete every row of the course whose rank under the canonical
    /// order falls outside the top `cap`. Other courses are untouched.
    pub fn prune_course(&mut self, course: &str, cap: usize)
        requires
            old(self).wf(),
        ensures
            final(self).wf(),
            final(self).fresh_id() == old(self).fresh_id(),
            final(self).recs() == crate::record::pruned_upto(
                old(self).recs(),
                course@,
                cap as nat,
                old(self).recs().len() as int,
            ),
    {
        let ghost all = self.records@;
        let n = self.records.len();
        let mut out: Vec<ScoreRecord> = Vec::new();
        let mut i: usize = 0;
        proof {
            assert(out@ =~= crate::record::pruned_upto(all, course@, cap as nat, 0));
        }
        while i < n
            invariant
                n == self.records@.len(),
                all == self.records@,
                *self == *old(self),
                self.wf(),
                0 <= i <= n,
                out@ == crate::record::pruned_upto(all, course@, cap as nat, i as int),
            decreases n - i,
        {
            let in_this_course = str_eq(self.records[i].course.as_str(), course);
            let mut keep = true;
            if in_this_course {
                let ghost bp = crate::record::beats_in_course_pred(all, course@, all[i as int]);
                let mut bc: usize = 0;
                let mut j: usize = 0;
                while j < n
                    invariant
                        n == self.records@.len(),
                        all == self.records@,
                        0 <= j <= n,
                        0 <= i < n,
                        bc == count_where(
                            j as int,
                            crate::record::beats_in_course_pred(all, course@, all[i as int]),
                        ),
                        bc <= j,
                    decreases n - j,
                {
                    let hit = str_eq(self.records[j].course.as_str(), course) && beats_exec(
                        &self.records[j],
                        &self.records[i],
                    );
                    proof {
                        let bp2 = crate::record::beats_in_course_pred(all, course@, all[i as int]);
                        assert(hit == bp2(j as int));
                        assert(count_where(j as int + 1, bp2) == count_where(j as int, bp2) + (
                        if bp2(j as int) {
                            1nat
                        } else {
                            0nat
                        }));
                    }
                    if hit {
                        bc = bc + 1;
                    }
                    j = j + 1;
                }
                keep = bc < cap;
                proof {
                    let r = all[i as int];
                    crate::counting::lemma_count_eq(
                        n as int,
                        crate::record::beats_in_course_pred(all, course@, r),
                        crate::record::beats_in_course_pred(all, r.course@, r),
                    );
                    assert(keep == (crate::record::num_beating(all, r) < cap as nat));
                }
            }
            proof {
                let r = all[i as int];
                assert(crate::record::in_course(r, course@) == in_this_course);
                assert(keep == (!crate::record::in_course(r, course@)
                    || crate::record::num_beating(all, r) < cap as nat));
            }
            if keep {
                let rec = self.records[i].clone();
                out.push(rec);
            }
            i = i + 1;
        }
        proof {
            crate::record::lemma_pruned_from(all, course@, cap as nat, n as int);
            assert forall|a: int| 0 <= a < out@.len() implies out@[a].id < self.next_id by {
                let w = choose|w: int| 0 <= w < n && out@[a] == all[w];
            }
        }
        self.records = out;
    }

    /// The participant's worst row for the course under the canonical
    /// order, if any.
    pub fn query_worst(&self, course: &str, school_id: u128) -> (worst: Option<ScoreRecord>)
        requires
            self.wf(),
        ensures
            match worst {
                Some(r) => exists|w: int|
                    #[trigger] crate::record::is_worst_mine(self.recs(), course@, school_id, w)
                        && r == self.recs()[w],
                None => mine_count(self.recs(), course@, school_id) == 0,
            },
    {
        let n = self.records.len();
        let mut found: bool = false;
        let mut wi: usize = 0;
        let mut i: usize = 0;
        while i < n
            invariant
                n == self.records@.len(),
                0 <= i <= n,
                self.wf(),
                !found ==> forall|j: int|
                    0 <= j < i ==> !(#[trigger] scope_pred(self.records@, course@, school_id)(j)),
                found ==> 0 <= wi < i && scope_pred(self.records@, course@, school_id)(wi as int)
                    && forall|j: int|
                    0 <= j < i && #[trigger] scope_pred(self.records@, course@, school_id)(j)
                        && j != wi ==> beats(
                        self.records@[j],
                        self.records@[wi as int],
                    ),
            decreases n - i,
        {
            let mine = str_eq(self.records[i].course.as_str(), course) && self.records[i].school_id
                == school_id;
            proof {
                assert(mine == scope_pred(self.records@, course@, school_id)(i as int));
            }
            if mine {
                if !found {
                    found = true;
                    wi = i;
                } else {
                    // keep the index of the record all others beat
                    let a = &self.records[wi];
                    let b = &self.records[i];
                    let b_beats_a = b.time_millis < a.time_millis || (b.time_millis
                        == a.time_millis && (b.completed_at < a.completed_at || (b.completed_at
                        == a.completed_at && b.id < a.id)));
                    proof {
                        assert(b_beats_a == beats(
                            self.records@[i as int],
                            self.records@[wi as int],
                        ));
                        crate::record::lemma_beats_total(
                            self.records@[wi as int],
                            self.records@[i as int],
                        );
                    }
                    if !b_beats_a {
                        proof {
                            assert forall|j: int|
                                0 <= j < i + 1 && #[trigger] scope_pred(
                                    self.records@,
                                    course@,
                                    school_id,
                                )(j) && j != i implies beats(
                                self.records@[j],
                                self.records@[i as int],
                            ) by {
                                if j != wi {
                                    crate::record::lemma_beats_trans(
                                        self.records@[j],
                                        self.records@[wi as int],
                                        self.records@[i as int],
                                    );
                                }
                            }
                        }
                        wi = i;
                    }
                }
            }
            i = i + 1;
        }
        if found {
            proof {
                assert(crate::record::is_worst_mine(self.recs(), course@, school_id, wi as int));
            }
            Some(self.records[wi].clone())
        } else {
            proof {
                lemma_count_zero(n as int, scope_pred(self.records@, course@, school_id));
            }
            None
        }
    }
}

} // verus!
