//! The aggregate ranking service: per participant group, how many
//! distinct courses each participant has ranked in and a medal tally
//! across all courses, recomputed from the store on every call.

use vstd::prelude::*;
use crate::counting::{count_where, lemma_count_pos};
use crate::record::{beats_exec, beats_in_course_pred, num_beating, rank_in_course, ScoreRecord};
use crate::store::RankingStore;
use crate::text::str_eq;

verus! {

/// One row of the top-performers view.
pub struct TopUserSchoolEntry {
    pub name: String,
    pub school: String,
    pub leaderboard_count: u64,
    pub gold_medals: u64,
    pub silver_medals: u64,
    pub bronze_medals: u64,
    pub generic_medals: u64,
}

impl Clone for TopUserSchoolEntry {
    fn clone(&self) -> (res: Self)
        ensures
            res == *self,
    {
        TopUserSchoolEntry {
            name: self.name.clone(),
            school: self.school.clone(),
            leaderboard_count: self.leaderboard_count,
            gold_medals: self.gold_medals,
            silver_medals: self.silver_medals,
            bronze_medals: self.bronze_medals,
            generic_medals: self.generic_medals,
        }
    }
}

/// The record belongs to the requested participant group.
pub open spec fn in_group(r: ScoreRecord, school: Seq<char>, sid: u128) -> bool {
    r.school@ == school && r.school_id == sid
}

/// The index predicate selecting a participant's records in the group.
pub open spec fn member_pred(
    recs: Seq<ScoreRecord>,
    school: Seq<char>,
    sid: u128,
    name: Seq<char>,
) -> spec_fn(int) -> bool {
    |i: int| in_group(recs[i], school, sid) && recs[i].name@ == name
}

/// The participant has at least one record in the group.
pub open spec fn is_group_name(
    recs: Seq<ScoreRecord>,
    school: Seq<char>,
    sid: u128,
    name: Seq<char>,
) -> bool {
    count_where(recs.len() as int, member_pred(recs, school, sid, name)) > 0
}

/// The participant's records whose rank within their course is exactly `m`.
pub open spec fn medal_pred(
    recs: Seq<ScoreRecord>,
    school: Seq<char>,
    sid: u128,
    name: Seq<char>,
    m: nat,
) -> spec_fn(int) -> bool {
    |i: int| in_group(recs[i], school, sid) && recs[i].name@ == name && rank_in_course(
        recs,
        recs[i],
    ) == m
}

/// How many of the participant's records hold rank `m` in their course.
pub open spec fn medal_count(
    recs: Seq<ScoreRecord>,
    school: Seq<char>,
    sid: u128,
    name: Seq<char>,
    m: nat,
) -> nat {
    count_where(recs.len() as int, medal_pred(recs, school, sid, name, m))
}

/// The participant's records ranked outside the podium.
pub open spec fn other_pred(
    recs: Seq<ScoreRecord>,
    school: Seq<char>,
    sid: u128,
    name: Seq<char>,
) -> spec_fn(int) -> bool {
    |i: int| in_group(recs[i], school, sid) && recs[i].name@ == name && rank_in_course(
        recs,
        recs[i],
    ) > 3
}

pub open spec fn other_medal_count(
    recs: Seq<ScoreRecord>,
    school: Seq<char>,
    sid: u128,
    name: Seq<char>,
) -> nat {
    count_where(recs.len() as int, other_pred(recs, school, sid, name))
}

/// The first record of the participant in each course: counting these
/// counts the distinct courses the participant has appeared in.
pub open spec fn new_course_pred(
    recs: Seq<ScoreRecord>,
    school: Seq<char>,
    sid: u128,
    name: Seq<char>,
) -> spec_fn(int) -> bool {
    |i: int| in_group(recs[i], school, sid) && recs[i].name@ == name && (forall|j: int|
        0 <= j < i ==> !(in_group(#[trigger] recs[j], school, sid) && recs[j].name@ == name
            && recs[j].course@ == recs[i].course@))
}

/// In how many distinct courses the participant holds a record.
pub open spec fn distinct_course_count(
    recs: Seq<ScoreRecord>,
    school: Seq<char>,
    sid: u128,
    name: Seq<char>,
) -> nat {
    count_where(recs.len() as int, new_course_pred(recs, school, sid, name))
}

/// The earliest completion time among the participant's first `n`
/// records in the group; the maximum timestamp when there is none.
pub open spec fn first_seen_upto(
    recs: Seq<ScoreRecord>,
    school: Seq<char>,
    sid: u128,
    name: Seq<char>,
    n: int,
) -> u64
    decreases n,
{
    if n <= 0 {
        u64::MAX
    } else {
        let prev = first_seen_upto(recs, school, sid, name, n - 1);
        if in_group(recs[n - 1], school, sid) && recs[n - 1].name@ == name && recs[n
            - 1].completed_at < prev {
            recs[n - 1].completed_at
        } else {
            prev
        }
    }
}

/// The participant's earliest completion time in the group.
pub open spec fn first_seen(
    recs: Seq<ScoreRecord>,
    school: Seq<char>,
    sid: u128,
    name: Seq<char>,
) -> u64 {
    first_seen_upto(recs, school, sid, name, recs.len() as int)
}

/// The entry states exactly the participant's aggregate standings.
pub open spec fn entry_correct(
    recs: Seq<ScoreRecord>,
    school: Seq<char>,
    sid: u128,
    e: TopUserSchoolEntry,
) -> bool {
    &&& is_group_name(recs, school, sid, e.name@)
    &&& e.school@ == school
    &&& e.leaderboard_count == distinct_course_count(recs, school, sid, e.name@)
    &&& e.gold_medals == medal_count(recs, school, sid, e.name@, 1)
    &&& e.silver_medals == medal_count(recs, school, sid, e.name@, 2)
    &&& e.bronze_medals == medal_count(recs, school, sid, e.name@, 3)
    &&& e.generic_medals == other_medal_count(recs, school, sid, e.name@)
}

/// The ordering of the view: more distinct courses first, ties broken by
/// the earlier first appearance.
pub open spec fn ranks_at_least(
    recs: Seq<ScoreRecord>,
    school: Seq<char>,
    sid: u128,
    a: Seq<char>,
    b: Seq<char>,
) -> bool {
    distinct_course_count(recs, school, sid, a) > distinct_course_count(recs, school, sid, b) || (
    distinct_course_count(recs, school, sid, a) == distinct_course_count(recs, school, sid, b)
        && first_seen(recs, school, sid, a) <= first_seen(recs, school, sid, b))
}

/// The index predicate selecting entries that carry the given name.
pub open spec fn entry_name_pred(s: Seq<TopUserSchoolEntry>, name: Seq<char>) -> spec_fn(
    int,
) -> bool {
    |k: int| s[k].name@ == name
}

/// Some listed entry carries the name.
pub open spec fn has_entry_name(s: Seq<TopUserSchoolEntry>, name: Seq<char>) -> bool {
    count_where(s.len() as int, entry_name_pred(s, name)) > 0
}

/// The index predicate selecting names equal to `name` in a name list.
pub open spec fn name_match_pred(names: Seq<String>, name: Seq<char>) -> spec_fn(int) -> bool {
    |k: int| names[k]@ == name
}

pub open spec fn has_name(names: Seq<String>, name: Seq<char>) -> bool {
    count_where(names.len() as int, name_match_pred(names, name)) > 0
}

/// The first record of each distinct participant in the group: counting
/// these counts the group's distinct participant names.
pub open spec fn new_name_pred(recs: Seq<ScoreRecord>, school: Seq<char>, sid: u128) -> spec_fn(
    int,
) -> bool {
    |i: int| in_group(recs[i], school, sid) && (forall|j: int|
        0 <= j < i ==> !(in_group(#[trigger] recs[j], school, sid) && recs[j].name@
            == recs[i].name@))
}

/// How many distinct participant names the group holds.
pub open spec fn group_name_count(recs: Seq<ScoreRecord>, school: Seq<char>, sid: u128) -> nat {
    count_where(recs.len() as int, new_name_pred(recs, school, sid))
}

/// Compute one participant's aggregate entry by scanning all records and
/// ranking each of the participant's records within its course.
fn performer_entry(all: &Vec<ScoreRecord>, school: &str, school_id: u128, name: &String) -> (e: (
    TopUserSchoolEntry,
    u64,
))
    ensures
        e.0.name@ == name@,
        e.0.school@ == school@,
        entry_correct(all@, school@, school_id, e.0) == is_group_name(
            all@,
            school@,
            school_id,
            name@,
        ),
        e.0.leaderboard_count == distinct_course_count(all@, school@, school_id, name@),
        e.0.gold_medals == medal_count(all@, school@, school_id, name@, 1),
        e.0.silver_medals == medal_count(all@, school@, school_id, name@, 2),
        e.0.bronze_medals == medal_count(all@, school@, school_id, name@, 3),
        e.0.generic_medals == other_medal_count(all@, school@, school_id, name@),
        e.1 == first_seen(all@, school@, school_id, name@),
{
    let ghost recs = all@;
    let ghost sc = school@;
    let ghost nm = name@;
    let n = all.len();
    let mut gold: u64 = 0;
    let mut silver: u64 = 0;
    let mut bronze: u64 = 0;
    let mut other: u64 = 0;
    let mut distinct: u64 = 0;
    let mut fs: u64 = u64::MAX;
    let mut i: usize = 0;
    while i < n
        invariant
            n == all@.len(),
            recs == all@,
            sc == school@,
            nm == name@,
            0 <= i <= n,
            gold == count_where(i as int, medal_pred(recs, sc, school_id, nm, 1)),
            silver == count_where(i as int, medal_pred(recs, sc, school_id, nm, 2)),
            bronze == count_where(i as int, medal_pred(recs, sc, school_id, nm, 3)),
            other == count_where(i as int, other_pred(recs, sc, school_id, nm)),
            distinct == count_where(i as int, new_course_pred(recs, sc, school_id, nm)),
            fs == first_seen_upto(recs, sc, school_id, nm, i as int),
            gold <= i && silver <= i && bronze <= i && other <= i && distinct <= i,
        decreases n - i,
    {
        let is_member = str_eq(all[i].school.as_str(), school) && all[i].school_id == school_id
            && str_eq(all[i].name.as_str(), name.as_str());
        proof {
            assert(is_member == (in_group(recs[i as int], sc, school_id) && recs[i as int].name@
                == nm));
        }
        if is_member {
            // rank this record within its course
            let mut bc: u64 = 0;
            let mut j: usize = 0;
            while j < n
                invariant
                    n == all@.len(),
                    recs == all@,
                    0 <= j <= n,
                    0 <= i < n,
                    bc == count_where(
                        j as int,
                        beats_in_course_pred(recs, recs[i as int].course@, recs[i as int]),
                    ),
                    bc <= j,
                decreases n - j,
            {
                let hit = str_eq(all[j].course.as_str(), all[i].course.as_str()) && beats_exec(
                    &all[j],
                    &all[i],
                );
                proof {
                    let bp = beats_in_course_pred(recs, recs[i as int].course@, recs[i as int]);
                    assert(hit == bp(j as int));
                    assert(count_where(j as int + 1, bp) == count_where(j as int, bp) + (if bp(
                        j as int,
                    ) {
                        1nat
                    } else {
                        0nat
                    }));
                }
                if hit {
                    bc = bc + 1;
                }
                j = j + 1;
            }
            proof {
                assert(num_beating(recs, recs[i as int]) == bc);
                assert(rank_in_course(recs, recs[i as int]) == bc + 1);
            }
            if bc == 0 {
                gold = gold + 1;
            } else if bc == 1 {
                silver = silver + 1;
            } else if bc == 2 {
                bronze = bronze + 1;
            } else {
                other = other + 1;
            }
            // is this the participant's first record in this course?
            let mut seen = false;
            let mut j2: usize = 0;
            while j2 < i
                invariant
                    n == all@.len(),
                    recs == all@,
                    0 <= j2 <= i < n,
                    sc == school@,
                    nm == name@,
                    seen == (count_where(
                        j2 as int,
                        same_course_member_pred(recs, sc, school_id, nm, recs[i as int].course@),
                    ) > 0),
                decreases i - j2,
            {
                let h2 = str_eq(all[j2].school.as_str(), school) && all[j2].school_id == school_id
                    && str_eq(all[j2].name.as_str(), name.as_str()) && str_eq(
                    all[j2].course.as_str(),
                    all[i].course.as_str(),
                );
                proof {
                    let sp = same_course_member_pred(
                        recs,
                        sc,
                        school_id,
                        nm,
                        recs[i as int].course@,
                    );
                    assert(h2 == sp(j2 as int));
                    assert(count_where(j2 as int + 1, sp) == count_where(j2 as int, sp) + (if sp(
                        j2 as int,
                    ) {
                        1nat
                    } else {
                        0nat
                    }));
                }
                if h2 {
                    seen = true;
                }
                j2 = j2 + 1;
            }
            if !seen {
                distinct = distinct + 1;
            }
            proof {
                let sp = same_course_member_pred(recs, sc, school_id, nm, recs[i as int].course@);
                if seen {
                    crate::counting::lemma_count_witness(i as int, sp);
                    let jw = choose|jw: int| 0 <= jw < i && #[trigger] sp(jw);
                    assert(in_group(recs[jw], sc, school_id) && recs[jw].name@ == nm
                        && recs[jw].course@ == recs[i as int].course@);
                    assert(!(new_course_pred(recs, sc, school_id, nm)(i as int)));
                } else {
                    assert forall|jx: int| 0 <= jx < i implies !(in_group(
                        #[trigger] recs[jx],
                        sc,
                        school_id,
                    ) && recs[jx].name@ == nm && recs[jx].course@ == recs[i as int].course@) by {
                        if sp(jx) {
                            lemma_count_pos(i as int, sp, jx);
                        }
                    }
                    assert(new_course_pred(recs, sc, school_id, nm)(i as int));
                }
            }
            if all[i].completed_at < fs {
                fs = all[i].completed_at;
            }
        }
        proof {
            let p1 = medal_pred(recs, sc, school_id, nm, 1);
            let p2 = medal_pred(recs, sc, school_id, nm, 2);
            let p3 = medal_pred(recs, sc, school_id, nm, 3);
            let po = other_pred(recs, sc, school_id, nm);
            let pc = new_course_pred(recs, sc, school_id, nm);
            assert(count_where(i as int + 1, p1) == count_where(i as int, p1) + (if p1(i as int) {
                1nat
            } else {
                0nat
            }));
            assert(count_where(i as int + 1, p2) == count_where(i as int, p2) + (if p2(i as int) {
                1nat
            } else {
                0nat
            }));
            assert(count_where(i as int + 1, p3) == count_where(i as int, p3) + (if p3(i as int) {
                1nat
            } else {
                0nat
            }));
            assert(count_where(i as int + 1, po) == count_where(i as int, po) + (if po(i as int) {
                1nat
            } else {
                0nat
            }));
            assert(count_where(i as int + 1, pc) == count_where(i as int, pc) + (if pc(i as int) {
                1nat
            } else {
                0nat
            }));
        }
        i = i + 1;
    }
    proof {
        if is_group_name(recs, sc, school_id, nm) {
            crate::counting::lemma_count_witness(n as int, member_pred(recs, sc, school_id, nm));
        }
    }
    let entry = TopUserSchoolEntry {
        name: name.clone(),
        school: school.to_owned(),
        leaderboard_count: distinct,
        gold_medals: gold,
        silver_medals: silver,
        bronze_medals: bronze,
        generic_medals: other,
    };
    (entry, fs)
}

/// The index predicate selecting pair entries that carry the name.
pub open spec fn pair_name_pred(s: Seq<(TopUserSchoolEntry, u64)>, name: Seq<char>) -> spec_fn(
    int,
) -> bool {
    |k: int| s[k].0.name@ == name
}

pub open spec fn has_pair_name(s: Seq<(TopUserSchoolEntry, u64)>, name: Seq<char>) -> bool {
    count_where(s.len() as int, pair_name_pred(s, name)) > 0
}

/// The sort key of the view: more distinct courses first, ties broken by
/// the earlier first appearance (carried in the second component).
pub open spec fn pair_ge(a: (TopUserSchoolEntry, u64), b: (TopUserSchoolEntry, u64)) -> bool {
    a.0.leaderboard_count > b.0.leaderboard_count || (a.0.leaderboard_count
        == b.0.leaderboard_count && a.1 <= b.1)
}

/// Collect each distinct participant name of the group, in order of
/// first appearance.
fn collect_names(all: &Vec<ScoreRecord>, school: &str, school_id: u128) -> (names: Vec<String>)
    ensures
        names@.len() == group_name_count(all@, school@, school_id),
        forall|a: int, b: int| 0 <= a < b < names@.len() ==> names@[a]@ != names@[b]@,
        forall|k: int|
            0 <= k < names@.len() ==> is_group_name(all@, school@, school_id, (
            #[trigger] names@[k])@),
        forall|i: int|
            0 <= i < all@.len() && in_group(#[trigger] all@[i], school@, school_id) ==> has_name(
                names@,
                all@[i].name@,
            ),
{
    let ghost recs = all@;
    let ghost sc = school@;
    let n = all.len();
    let mut names: Vec<String> = Vec::new();
    let mut i: usize = 0;
    while i < n
        invariant
            n == all@.len(),
            recs == all@,
            sc == school@,
            0 <= i <= n,
            names@.len() == count_where(i as int, new_name_pred(recs, sc, school_id)),
            forall|a: int, b: int| 0 <= a < b < names@.len() ==> names@[a]@ != names@[b]@,
            forall|k: int|
                0 <= k < names@.len() ==> count_where(
                    i as int,
                    member_pred(recs, sc, school_id, (#[trigger] names@[k])@),
                ) > 0,
            forall|i2: int|
                0 <= i2 < i && in_group(#[trigger] recs[i2], sc, school_id) ==> has_name(
                    names@,
                    recs[i2].name@,
                ),
        decreases n - i,
    {
        let g = str_eq(all[i].school.as_str(), school) && all[i].school_id == school_id;
        proof {
            assert(g == in_group(recs[i as int], sc, school_id));
        }
        if g {
            let ghost nm = recs[i as int].name@;
            let m = names.len();
            let mut found = false;
            let mut k: usize = 0;
            while k < m
                invariant
                    m == names@.len(),
                    0 <= k <= m,
                    0 <= i < n,
                    n == all@.len(),
                    recs == all@,
                    nm == recs[i as int].name@,
                    found == (count_where(k as int, name_match_pred(names@, nm)) > 0),
                decreases m - k,
            {
                let hit = str_eq(names[k].as_str(), all[i].name.as_str());
                proof {
                    let np = name_match_pred(names@, nm);
                    assert(hit == np(k as int));
                    assert(count_where(k as int + 1, np) == count_where(k as int, np) + (if np(
                        k as int,
                    ) {
                        1nat
                    } else {
                        0nat
                    }));
                    if hit {
                        lemma_count_pos(k as int + 1, np, k as int);
                    }
                }
                if hit {
                    found = true;
                }
                k = k + 1;
            }
            let ghost pre = names@;
            if !found {
                let fresh = all[i].name.clone();
                names.push(fresh);
                proof {
                    // the new name differs from every collected name
                    assert forall|a: int, b: int|
                        0 <= a < b < names@.len() implies names@[a]@ != names@[b]@ by {
                        if b == names@.len() - 1 {
                            let np = name_match_pred(pre, nm);
                            if np(a) {
                                lemma_count_pos(pre.len() as int, np, a);
                            }
                        }
                    }
                    // this record is the first appearance of its name
                    assert forall|j: int| 0 <= j < i implies !(in_group(
                        #[trigger] recs[j],
                        sc,
                        school_id,
                    ) && recs[j].name@ == nm) by {
                        if in_group(recs[j], sc, school_id) && recs[j].name@ == nm {
                            assert(has_name(pre, recs[j].name@));
                            crate::counting::lemma_count_witness(
                                pre.len() as int,
                                name_match_pred(pre, nm),
                            );
                        }
                    }
                    assert(new_name_pred(recs, sc, school_id)(i as int));
                    // each collected name keeps a member among the scanned prefix
                    assert forall|k2: int| 0 <= k2 < names@.len() implies count_where(
                        i as int + 1,
                        member_pred(recs, sc, school_id, (#[trigger] names@[k2])@),
                    ) > 0 by {
                        if k2 < pre.len() {
                            assert(names@[k2] == pre[k2]);
                            crate::counting::lemma_count_witness(
                                i as int,
                                member_pred(recs, sc, school_id, pre[k2]@),
                            );
                            let jw = choose|jw: int|
                                0 <= jw < i && #[trigger] member_pred(
                                    recs,
                                    sc,
                                    school_id,
                                    pre[k2]@,
                                )(jw);
                            lemma_count_pos(
                                i as int + 1,
                                member_pred(recs, sc, school_id, names@[k2]@),
                                jw,
                            );
                        } else {
                            assert(names@[k2]@ == nm);
                            assert(member_pred(recs, sc, school_id, names@[k2]@)(i as int));
                            lemma_count_pos(
                                i as int + 1,
                                member_pred(recs, sc, school_id, names@[k2]@),
                                i as int,
                            );
                        }
                    }
                    // every scanned group record still has its name listed
                    assert forall|i2: int|
                        0 <= i2 < i + 1 && in_group(#[trigger] recs[i2], sc, school_id)
                            implies has_name(names@, recs[i2].name@) by {
                        if i2 == i as int {
                            assert(name_match_pred(names@, recs[i2].name@)(pre.len() as int));
                            lemma_count_pos(
                                names@.len() as int,
                                name_match_pred(names@, recs[i2].name@),
                                pre.len() as int,
                            );
                        } else {
                            crate::counting::lemma_count_witness(
                                pre.len() as int,
                                name_match_pred(pre, recs[i2].name@),
                            );
                            let kw = choose|kw: int|
                                0 <= kw < pre.len() && #[trigger] name_match_pred(
                                    pre,
                                    recs[i2].name@,
                                )(kw);
                            assert(name_match_pred(names@, recs[i2].name@)(kw));
                            lemma_count_pos(
                                names@.len() as int,
                                name_match_pred(names@, recs[i2].name@),
                                kw,
                            );
                        }
                    }
                    assert(count_where(i as int + 1, new_name_pred(recs, sc, school_id))
                        == count_where(i as int, new_name_pred(recs, sc, school_id)) + 1);
                }
            } else {
                proof {
                    // the name was already listed, so some earlier record
                    // of the group carries it
                    crate::counting::lemma_count_witness(
                        names@.len() as int,
                        name_match_pred(names@, nm),
                    );
                    let kw = choose|kw: int|
                        0 <= kw < names@.len() && #[trigger] name_match_pred(names@, nm)(kw);
                    crate::counting::lemma_count_witness(
                        i as int,
                        member_pred(recs, sc, school_id, names@[kw]@),
                    );
                    let jw = choose|jw: int|
                        0 <= jw < i && #[trigger] member_pred(recs, sc, school_id, names@[kw]@)(
                            jw,
                        );
                    assert(in_group(recs[jw], sc, school_id) && recs[jw].name@ == nm);
                    assert(!(new_name_pred(recs, sc, school_id)(i as int)));
                    assert(count_where(i as int + 1, new_name_pred(recs, sc, school_id))
                        == count_where(i as int, new_name_pred(recs, sc, school_id)));
                    assert forall|k2: int| 0 <= k2 < names@.len() implies count_where(
                        i as int + 1,
                        member_pred(recs, sc, school_id, (#[trigger] names@[k2])@),
                    ) > 0 by {
                        crate::counting::lemma_count_witness(
                            i as int,
                            member_pred(recs, sc, school_id, names@[k2]@),
                        );
                        let jw2 = choose|jw2: int|
                            0 <= jw2 < i && #[trigger] member_pred(recs, sc, school_id, names@[k2]@)(
                                jw2,
                            );
                        lemma_count_pos(
                            i as int + 1,
                            member_pred(recs, sc, school_id, names@[k2]@),
                            jw2,
                        );
                    }
                }
            }
        } else {
            proof {
                assert(!(new_name_pred(recs, sc, school_id)(i as int)));
                assert(count_where(i as int + 1, new_name_pred(recs, sc, school_id)) == count_where(
                    i as int,
                    new_name_pred(recs, sc, school_id),
                ));
                assert forall|k2: int| 0 <= k2 < names@.len() implies count_where(
                    i as int + 1,
                    member_pred(recs, sc, school_id, (#[trigger] names@[k2])@),
                ) > 0 by {
                    crate::counting::lemma_count_witness(
                        i as int,
                        member_pred(recs, sc, school_id, names@[k2]@),
                    );
                    let jw2 = choose|jw2: int|
                        0 <= jw2 < i && #[trigger] member_pred(recs, sc, school_id, names@[k2]@)(
                            jw2,
                        );
                    lemma_count_pos(i as int + 1, member_pred(recs, sc, school_id, names@[k2]@), jw2);
                }
            }
        }
        i = i + 1;
    }
    proof {
        assert forall|k: int| 0 <= k < names@.len() implies is_group_name(
            recs,
            sc,
            school_id,
            (#[trigger] names@[k])@,
        ) by {
            crate::counting::lemma_count_witness(
                n as int,
                member_pred(recs, sc, school_id, names@[k]@),
            );
            let jw = choose|jw: int|
                0 <= jw < n && #[trigger] member_pred(recs, sc, school_id, names@[k]@)(jw);
            lemma_count_pos(recs.len() as int, member_pred(recs, sc, school_id, names@[k]@), jw);
        }
    }
    names
}

/// Order the entries: most distinct courses first, ties broken by the
/// earlier first appearance. Entries keep their names and fields.
fn sort_entries(
    entries: Vec<(TopUserSchoolEntry, u64)>,
    Ghost(recs): Ghost<Seq<ScoreRecord>>,
    Ghost(sc): Ghost<Seq<char>>,
    Ghost(sid): Ghost<u128>,
) -> (r: Vec<(TopUserSchoolEntry, u64)>)
    requires
        forall|k: int|
            0 <= k < entries@.len() ==> entry_correct(recs, sc, sid, (#[trigger] entries@[k]).0)
                && entries@[k].1 == first_seen(recs, sc, sid, entries@[k].0.name@),
        forall|a: int, b: int|
            0 <= a < b < entries@.len() ==> entries@[a].0.name@ != entries@[b].0.name@,
    ensures
        r@.len() == entries@.len(),
        forall|a: int, b: int| 0 <= a < b < r@.len() ==> pair_ge(r@[a], r@[b]),
        forall|k: int|
            0 <= k < r@.len() ==> entry_correct(recs, sc, sid, (#[trigger] r@[k]).0) && r@[k].1
                == first_seen(recs, sc, sid, r@[k].0.name@),
        forall|a: int, b: int| 0 <= a < b < r@.len() ==> r@[a].0.name@ != r@[b].0.name@,
        forall|k: int|
            0 <= k < entries@.len() ==> has_pair_name(r@, (#[trigger] entries@[k]).0.name@),
{
    let ghost orig = entries@;
    let mut rest = entries;
    let mut out: Vec<(TopUserSchoolEntry, u64)> = Vec::new();
    proof {
        assert forall|k: int| 0 <= k < orig.len() implies has_pair_name(rest@, (
        #[trigger] orig[k]).0.name@) by {
            assert(pair_name_pred(rest@, orig[k].0.name@)(k));
            lemma_count_pos(rest@.len() as int, pair_name_pred(rest@, orig[k].0.name@), k);
        }
    }
    while rest.len() > 0
        invariant
            out@.len() + rest@.len() == orig.len(),
            forall|a: int, b: int| 0 <= a < b < out@.len() ==> pair_ge(out@[a], out@[b]),
            forall|k: int, j: int|
                0 <= k < out@.len() && 0 <= j < rest@.len() ==> pair_ge(
                    #[trigger] out@[k],
                    #[trigger] rest@[j],
                ),
            forall|k: int|
                0 <= k < out@.len() ==> entry_correct(recs, sc, sid, (#[trigger] out@[k]).0)
                    && out@[k].1 == first_seen(recs, sc, sid, out@[k].0.name@),
            forall|j: int|
                0 <= j < rest@.len() ==> entry_correct(recs, sc, sid, (#[trigger] rest@[j]).0)
                    && rest@[j].1 == first_seen(recs, sc, sid, rest@[j].0.name@),
            forall|a: int, b: int| 0 <= a < b < out@.len() ==> out@[a].0.name@ != out@[b].0.name@,
            forall|a: int, b: int|
                0 <= a < b < rest@.len() ==> rest@[a].0.name@ != rest@[b].0.name@,
            forall|k: int, j: int|
                0 <= k < out@.len() && 0 <= j < rest@.len() ==> (#[trigger] out@[k]).0.name@ != (
                #[trigger] rest@[j]).0.name@,
            forall|k: int|
                0 <= k < orig.len() ==> has_pair_name(out@, (#[trigger] orig[k]).0.name@)
                    || has_pair_name(rest@, orig[k].0.name@),
        decreases rest@.len(),
    {
        let n = rest.len();
        let mut bi: usize = 0;
        let mut j: usize = 1;
        while j < n
            invariant
                n == rest@.len(),
                0 <= bi < j <= n,
                forall|j2: int| 0 <= j2 < j ==> pair_ge(rest@[bi as int], #[trigger] rest@[j2]),
            decreases n - j,
        {
            let better = rest[j].0.leaderboard_count > rest[bi].0.leaderboard_count || (
            rest[j].0.leaderboard_count == rest[bi].0.leaderboard_count && rest[j].1 <= rest[bi].1);
            proof {
                assert(better == pair_ge(rest@[j as int], rest@[bi as int]));
            }
            if better {
                bi = j;
            }
            j = j + 1;
        }
        let ghost pre_rest = rest@;
        let ghost pre_out = out@;
        let best = rest.remove(bi);
        out.push(best);
        proof {
            let gbi = bi as int;
            assert(rest@ == pre_rest.remove(gbi));
            assert(out@ == pre_out.push(pre_rest[gbi]));
            assert forall|k: int, j2: int|
                0 <= k < out@.len() && 0 <= j2 < rest@.len() implies pair_ge(
                #[trigger] out@[k],
                #[trigger] rest@[j2],
            ) && out@[k].0.name@ != rest@[j2].0.name@ by {
                let j0 = if j2 < gbi {
                    j2
                } else {
                    j2 + 1
                };
                assert(rest@[j2] == pre_rest[j0]);
                if k == out@.len() - 1 {
                    assert(out@[k] == pre_rest[gbi]);
                } else {
                    assert(out@[k] == pre_out[k]);
                }
            }
            assert forall|j2: int|
                0 <= j2 < rest@.len() implies entry_correct(recs, sc, sid, (
            #[trigger] rest@[j2]).0) && rest@[j2].1 == first_seen(recs, sc, sid, rest@[j2].0.name@)
                by {
                let j0 = if j2 < gbi {
                    j2
                } else {
                    j2 + 1
                };
                assert(rest@[j2] == pre_rest[j0]);
            }
            assert forall|a: int, b: int|
                0 <= a < b < rest@.len() implies rest@[a].0.name@ != rest@[b].0.name@ by {
                let a0 = if a < gbi {
                    a
                } else {
                    a + 1
                };
                let b0 = if b < gbi {
                    b
                } else {
                    b + 1
                };
                assert(rest@[a] == pre_rest[a0] && rest@[b] == pre_rest[b0]);
            }
            assert forall|k: int| 0 <= k < orig.len() implies has_pair_name(out@, (
            #[trigger] orig[k]).0.name@) || has_pair_name(rest@, orig[k].0.name@) by {
                let nm = orig[k].0.name@;
                if has_pair_name(pre_out, nm) {
                    crate::counting::lemma_count_witness(
                        pre_out.len() as int,
                        pair_name_pred(pre_out, nm),
                    );
                    let kw = choose|kw: int|
                        0 <= kw < pre_out.len() && #[trigger] pair_name_pred(pre_out, nm)(kw);
                    assert(pair_name_pred(out@, nm)(kw));
                    lemma_count_pos(out@.len() as int, pair_name_pred(out@, nm), kw);
                } else if has_pair_name(pre_rest, nm) {
                    crate::counting::lemma_count_witness(
                        pre_rest.len() as int,
                        pair_name_pred(pre_rest, nm),
                    );
                    let jw = choose|jw: int|
                        0 <= jw < pre_rest.len() && #[trigger] pair_name_pred(pre_rest, nm)(jw);
                    if jw == gbi {
                        assert(pair_name_pred(out@, nm)(out@.len() - 1));
                        lemma_count_pos(
                            out@.len() as int,
                            pair_name_pred(out@, nm),
                            out@.len() - 1,
                        );
                    } else {
                        let j3 = if jw < gbi {
                            jw
                        } else {
                            jw - 1
                        };
                        assert(rest@[j3] == pre_rest[jw]);
                        assert(pair_name_pred(rest@, nm)(j3));
                        lemma_count_pos(rest@.len() as int, pair_name_pred(rest@, nm), j3);
                    }
                }
            }
        }
    }
    out
}

impl RankingStore {
    /// The top performers of a participant group: one row per distinct
    /// participant name, each carrying the participant's distinct-course
    /// count and medal tally over all courses, ordered by distinct-course
    /// count descending with ties broken by earliest first appearance,
    /// cut to the best `limit` rows.
    pub fn get_top_performers(&self, school: &str, school_id: u128, limit: usize) -> (r: Vec<
        TopUserSchoolEntry,
    >)
        ensures
            r@.len() == (if limit as int <= group_name_count(self.recs(), school@, school_id) {
                limit as int
            } else {
                group_name_count(self.recs(), school@, school_id) as int
            }),
            forall|k: int|
                0 <= k < r@.len() ==> entry_correct(self.recs(), school@, school_id, (
                #[trigger] r@[k])),
            forall|a: int, b: int| 0 <= a < b < r@.len() ==> r@[a].name@ != r@[b].name@,
            forall|a: int, b: int|
                0 <= a < b < r@.len() ==> ranks_at_least(
                    self.recs(),
                    school@,
                    school_id,
                    r@[a].name@,
                    r@[b].name@,
                ),
            forall|i: int|
                0 <= i < self.recs().len() && in_group(
                    #[trigger] self.recs()[i],
                    school@,
                    school_id,
                ) && !has_entry_name(r@, self.recs()[i].name@) ==> forall|k: int|
                    0 <= k < r@.len() ==> ranks_at_least(
                        self.recs(),
                        school@,
                        school_id,
                        r@[k].name@,
                        self.recs()[i].name@,
                    ),
    {
        let ghost recs = self.recs();
        let ghost sc = school@;
        let all = self.records_snapshot();
        let names = collect_names(&all, school, school_id);
        let m = names.len();
        let mut entries: Vec<(TopUserSchoolEntry, u64)> = Vec::new();
        let mut k: usize = 0;
        while k < m
            invariant
                m == names@.len(),
                all@ == recs,
                sc == school@,
                entries@.len() == k,
                0 <= k <= m,
                forall|k2: int|
                    0 <= k2 < k ==> (#[trigger] entries@[k2]).0.name@ == names@[k2]@,
                forall|k2: int|
                    0 <= k2 < k ==> entry_correct(recs, sc, school_id, (
                    #[trigger] entries@[k2]).0) && entries@[k2].1 == first_seen(
                        recs,
                        sc,
                        school_id,
                        entries@[k2].0.name@,
                    ),
                forall|a: int, b: int| 0 <= a < b < m ==> names@[a]@ != names@[b]@,
                forall|k2: int|
                    0 <= k2 < m ==> is_group_name(recs, sc, school_id, (#[trigger] names@[k2])@),
            decreases m - k,
        {
            let e = performer_entry(&all, school, school_id, &names[k]);
            entries.push(e);
            k = k + 1;
        }
        let ghost ent = entries@;
        let sorted = sort_entries(entries, Ghost(recs), Ghost(sc), Ghost(school_id));
        let cut = if limit < sorted.len() {
            limit
        } else {
            sorted.len()
        };
        let mut out: Vec<TopUserSchoolEntry> = Vec::new();
        let mut q: usize = 0;
        while q < cut
            invariant
                cut <= sorted@.len(),
                0 <= q <= cut,
                out@.len() == q,
                forall|k2: int| 0 <= k2 < q ==> (#[trigger] out@[k2]) == sorted@[k2].0,
            decreases cut - q,
        {
            let e = sorted[q].0.clone();
            out.push(e);
            q = q + 1;
        }
        proof {
            assert forall|a: int, b: int| 0 <= a < b < out@.len() implies ranks_at_least(
                recs,
                sc,
                school_id,
                out@[a].name@,
                out@[b].name@,
            ) && out@[a].name@ != out@[b].name@ by {
                assert(pair_ge(sorted@[a], sorted@[b]));
            }
            // a group participant whose name is not listed has an entry
            // beyond the cut, which everything kept ranks at least as high as
            assert forall|i: int|
                0 <= i < recs.len() && in_group(#[trigger] recs[i], sc, school_id)
                    && !has_entry_name(out@, recs[i].name@) implies forall|k2: int|
                0 <= k2 < out@.len() ==> ranks_at_least(
                    recs,
                    sc,
                    school_id,
                    out@[k2].name@,
                    recs[i].name@,
                ) by {
                let nm = recs[i].name@;
                assert(has_name(names@, nm));
                crate::counting::lemma_count_witness(
                    names@.len() as int,
                    name_match_pred(names@, nm),
                );
                let kw = choose|kw: int|
                    0 <= kw < names@.len() && #[trigger] name_match_pred(names@, nm)(kw);
                assert(ent[kw].0.name@ == nm);
                assert(has_pair_name(sorted@, ent[kw].0.name@));
                assert(has_pair_name(sorted@, nm));
                crate::counting::lemma_count_witness(
                    sorted@.len() as int,
                    pair_name_pred(sorted@, nm),
                );
                let qw = choose|qw: int|
                    0 <= qw < sorted@.len() && #[trigger] pair_name_pred(sorted@, nm)(qw);
                if qw < cut {
                    assert(entry_name_pred(out@, nm)(qw));
                    lemma_count_pos(out@.len() as int, entry_name_pred(out@, nm), qw);
                    assert(false);
                }
                assert forall|k2: int| 0 <= k2 < out@.len() implies ranks_at_least(
                    recs,
                    sc,
                    school_id,
                    out@[k2].name@,
                    nm,
                ) by {
                    assert(pair_ge(sorted@[k2], sorted@[qw]));
                    assert(sorted@[qw].0.name@ == nm);
                }
            }
        }
        out
    }
}

/// The participant's earlier records in the same course.
pub open spec fn same_course_member_pred(
    recs: Seq<ScoreRecord>,
    school: Seq<char>,
    sid: u128,
    name: Seq<char>,
    course: Seq<char>,
) -> spec_fn(int) -> bool {
    |j: int| in_group(recs[j], school, sid) && recs[j].name@ == name && recs[j].course@ == course
}

} // verus!
