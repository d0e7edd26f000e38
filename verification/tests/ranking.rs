//! The ranking store end to end: policies, queries and aggregates.

use mer_matte::policy::{ScoreSubmission, SubmissionOutcome, SubmissionPolicy};
use mer_matte::record::{backfill_record, RawScoreRecord};
use mer_matte::store::{DeleteOutcome, RankingStore};

fn sub(name: &str, course: &str, school: &str, school_id: u128, time_millis: u64) -> ScoreSubmission {
    ScoreSubmission {
        name: name.to_string(),
        course: course.to_string(),
        school: school.to_string(),
        school_id,
        time_millis,
    }
}

fn accepted(out: &SubmissionOutcome) -> bool {
    matches!(out, SubmissionOutcome::Accepted { .. })
}

#[test]
fn bounded_size_caps_course() {
    let mut store = RankingStore::new();
    let policy = SubmissionPolicy::BoundedCourse { cap: 3 };
    // five submissions with strictly increasing times: every one is
    // accepted, but the course never holds more than three rows
    for k in 0..5u64 {
        let out = policy.submit(
            &mut store,
            &sub("P", "math", "School", 7, 1000 + 100 * k),
            50_000 + k,
        );
        assert!(accepted(&out));
        let rows = store.get_leaderboard("math", "School", 7, 100);
        assert!(rows.len() <= 3);
    }
    let rows = store.get_leaderboard("math", "School", 7, 100);
    assert_eq!(rows.len(), 3);
    // the three fastest survive the pruning
    assert_eq!(rows[0].time_millis, 1000);
    assert_eq!(rows[1].time_millis, 1100);
    assert_eq!(rows[2].time_millis, 1200);
}

#[test]
fn bounded_size_other_course_untouched() {
    let mut store = RankingStore::new();
    let policy = SubmissionPolicy::BoundedCourse { cap: 2 };
    policy.submit(&mut store, &sub("P", "math", "S", 7, 100), 1);
    policy.submit(&mut store, &sub("P", "logic", "S", 7, 200), 2);
    policy.submit(&mut store, &sub("P", "math", "S", 7, 300), 3);
    policy.submit(&mut store, &sub("P", "math", "S", 7, 400), 4);
    assert_eq!(store.get_leaderboard("math", "S", 7, 100).len(), 2);
    assert_eq!(store.get_leaderboard("logic", "S", 7, 100).len(), 1);
}

#[test]
fn replacement_accepts_strictly_faster() {
    let mut store = RankingStore::new();
    let policy = SubmissionPolicy::BestOfN { cap: 2 };
    assert!(accepted(&policy.submit(&mut store, &sub("P", "math", "S", 9, 10_000), 1)));
    assert!(accepted(&policy.submit(&mut store, &sub("P", "math", "S", 9, 20_000), 2)));
    // at the cap with worst time 20s: 15s replaces it
    let out = policy.submit(&mut store, &sub("P", "math", "S", 9, 15_000), 3);
    assert!(accepted(&out));
    let rows = store.get_leaderboard("math", "S", 9, 10);
    assert_eq!(rows.len(), 2);
    assert_eq!(rows[0].time_millis, 10_000);
    assert_eq!(rows[1].time_millis, 15_000);
}

#[test]
fn replacement_rejects_no_faster() {
    let mut store = RankingStore::new();
    let policy = SubmissionPolicy::BestOfN { cap: 2 };
    policy.submit(&mut store, &sub("P", "math", "S", 9, 10_000), 1);
    policy.submit(&mut store, &sub("P", "math", "S", 9, 20_000), 2);
    // equal to the worst is not strictly better: rejected, store intact
    let out = policy.submit(&mut store, &sub("P", "math", "S", 9, 20_000), 3);
    match out {
        SubmissionOutcome::Rejected { message } => {
            assert!(message.contains("not fast enough"));
        }
        _ => panic!("a no-faster submission at the cap must be rejected"),
    }
    // slower than the worst fares no better
    let out = policy.submit(&mut store, &sub("P", "math", "S", 9, 21_000), 4);
    assert!(matches!(out, SubmissionOutcome::Rejected { .. }));
    let rows = store.get_leaderboard("math", "S", 9, 10);
    assert_eq!(rows.len(), 2);
    assert_eq!(rows[0].time_millis, 10_000);
    assert_eq!(rows[1].time_millis, 20_000);
}

#[test]
fn blank_fields_get_defaults_each_time() {
    let mut store = RankingStore::new();
    let policy = SubmissionPolicy::BestOfN { cap: 10 };
    for k in 0..3u64 {
        let out = policy.submit(&mut store, &sub("  ", "", "   ", 4, 1000 + k), k);
        assert!(accepted(&out));
    }
    let rows = store.get_leaderboard("default", "Unknown School", 4, 10);
    assert_eq!(rows.len(), 3);
    for r in &rows {
        assert_eq!(r.name, "Anonymous");
        assert_eq!(r.course, "default");
        assert_eq!(r.school, "Unknown School");
    }
}

#[test]
fn course_keys_are_case_folded_and_trimmed() {
    let mut store = RankingStore::new();
    let policy = SubmissionPolicy::Uniqueness;
    assert!(accepted(&policy.submit(&mut store, &sub("P", "  MaTh ", "S", 5, 100), 1)));
    // the same participant under the folded key conflicts
    let out = policy.submit(&mut store, &sub("P", "math", "S", 5, 90), 2);
    match out {
        SubmissionOutcome::Conflict { message } => {
            assert!(message.contains("already been submitted"));
        }
        _ => panic!("a duplicate submission in uniqueness mode must conflict"),
    }
    let rows = store.get_leaderboard("math", "S", 5, 10);
    assert_eq!(rows.len(), 1);
    assert_eq!(rows[0].course, "math");
}

#[test]
fn leaderboard_is_sorted_by_time() {
    let mut store = RankingStore::new();
    let policy = SubmissionPolicy::BoundedCourse { cap: 10 };
    let times = [900u64, 100, 500, 300, 700, 200];
    for (k, t) in times.iter().enumerate() {
        policy.submit(&mut store, &sub("P", "math", "S", 3, *t), k as u64);
    }
    let rows = store.get_leaderboard("math", "S", 3, 10);
    assert_eq!(rows.len(), times.len());
    for w in rows.windows(2) {
        assert!(w[0].time_millis <= w[1].time_millis);
    }
    // a smaller limit returns the head of the same order
    let top2 = store.get_leaderboard("math", "S", 3, 2);
    assert_eq!(top2.len(), 2);
    assert_eq!(top2[0].time_millis, 100);
    assert_eq!(top2[1].time_millis, 200);
}

#[test]
fn equal_times_rank_earlier_completion_first() {
    let mut store = RankingStore::new();
    let policy = SubmissionPolicy::BoundedCourse { cap: 10 };
    policy.submit(&mut store, &sub("Late", "math", "S", 3, 500), 900);
    policy.submit(&mut store, &sub("Early", "math", "S", 3, 500), 100);
    let rows = store.get_leaderboard("math", "S", 3, 10);
    assert_eq!(rows[0].name, "Early");
    assert_eq!(rows[1].name, "Late");
}

#[test]
fn race_exactly_one_accepted_either_order() {
    let policy = SubmissionPolicy::BestOfN { cap: 1 };
    // two stores that saw the same history: a participant at the cap
    // with worst time 20s, then the same two contending submissions
    // serialized in opposite orders
    let better = sub("P", "math", "S", 6, 15_000);
    let slower = sub("P", "math", "S", 6, 25_000);

    let mut a = RankingStore::new();
    policy.submit(&mut a, &sub("P", "math", "S", 6, 20_000), 1);
    let a1 = policy.submit(&mut a, &better, 2);
    let a2 = policy.submit(&mut a, &slower, 3);
    assert!(accepted(&a1) && !accepted(&a2));
    let rows = a.get_leaderboard("math", "S", 6, 10);
    assert_eq!(rows.len(), 1);
    assert_eq!(rows[0].time_millis, 15_000);

    let mut b = RankingStore::new();
    policy.submit(&mut b, &sub("P", "math", "S", 6, 20_000), 1);
    let b1 = policy.submit(&mut b, &slower, 2);
    let b2 = policy.submit(&mut b, &better, 3);
    assert!(!accepted(&b1) && accepted(&b2));
    let rows = b.get_leaderboard("math", "S", 6, 10);
    assert_eq!(rows.len(), 1);
    assert_eq!(rows[0].time_millis, 15_000);
}

#[test]
fn top_performers_medal_tally() {
    let mut store = RankingStore::new();
    let policy = SubmissionPolicy::BoundedCourse { cap: 10 };
    // three courses, two participants of one school group: Ada wins
    // math and logic, Bo wins sets; each is second where the other wins
    policy.submit(&mut store, &sub("Ada", "math", "S", 2, 100), 10);
    policy.submit(&mut store, &sub("Bo", "math", "S", 2, 200), 11);
    policy.submit(&mut store, &sub("Ada", "logic", "S", 2, 100), 12);
    policy.submit(&mut store, &sub("Bo", "logic", "S", 2, 200), 13);
    policy.submit(&mut store, &sub("Bo", "sets", "S", 2, 100), 14);
    policy.submit(&mut store, &sub("Ada", "sets", "S", 2, 200), 15);
    let top = store.get_top_performers("S", 2, 10);
    assert_eq!(top.len(), 2);
    // both rank in three courses; Ada appeared first, so she leads
    assert_eq!(top[0].name, "Ada");
    assert_eq!(top[0].leaderboard_count, 3);
    assert_eq!(top[0].gold_medals, 2);
    assert_eq!(top[0].silver_medals, 1);
    assert_eq!(top[0].bronze_medals, 0);
    assert_eq!(top[0].generic_medals, 0);
    assert_eq!(top[1].name, "Bo");
    assert_eq!(top[1].leaderboard_count, 3);
    assert_eq!(top[1].gold_medals, 1);
    assert_eq!(top[1].silver_medals, 2);
    assert_eq!(top[1].school, "S");
}

#[test]
fn top_performers_ranks_beyond_podium() {
    let mut store = RankingStore::new();
    let policy = SubmissionPolicy::BoundedCourse { cap: 10 };
    for (k, name) in ["A", "B", "C", "D", "E"].iter().enumerate() {
        policy.submit(
            &mut store,
            &sub(name, "math", "S", 2, 100 * (k as u64 + 1)),
            k as u64,
        );
    }
    let top = store.get_top_performers("S", 2, 10);
    assert_eq!(top.len(), 5);
    // ranks 4 and 5 fall outside the podium
    let d = top.iter().find(|e| e.name == "D").unwrap();
    assert_eq!(d.generic_medals, 1);
    assert_eq!(d.gold_medals + d.silver_medals + d.bronze_medals, 0);
    let c = top.iter().find(|e| e.name == "C").unwrap();
    assert_eq!(c.bronze_medals, 1);
}

#[test]
fn top_performers_respects_limit() {
    let mut store = RankingStore::new();
    let policy = SubmissionPolicy::BoundedCourse { cap: 10 };
    policy.submit(&mut store, &sub("A", "m1", "S", 2, 100), 1);
    policy.submit(&mut store, &sub("A", "m2", "S", 2, 100), 2);
    policy.submit(&mut store, &sub("B", "m1", "S", 2, 200), 3);
    let top = store.get_top_performers("S", 2, 1);
    assert_eq!(top.len(), 1);
    assert_eq!(top[0].name, "A");
}

#[test]
fn guarded_delete_reports_misses() {
    let mut store = RankingStore::new();
    let id = store.insert(
        "P".to_string(),
        "math".to_string(),
        "S".to_string(),
        8,
        1000,
        1,
    );
    // the guard protects against deleting another participant's row
    assert_eq!(store.delete_by_id(id, 9), DeleteOutcome::NotFound);
    assert_eq!(store.count_for("math", 8), 1);
    assert_eq!(store.delete_by_id(id, 8), DeleteOutcome::Deleted);
    assert_eq!(store.count_for("math", 8), 0);
    assert_eq!(store.delete_by_id(id, 8), DeleteOutcome::NotFound);
}

#[test]
fn query_worst_finds_the_slowest() {
    let mut store = RankingStore::new();
    let policy = SubmissionPolicy::BestOfN { cap: 5 };
    policy.submit(&mut store, &sub("P", "math", "S", 8, 300), 1);
    policy.submit(&mut store, &sub("P", "math", "S", 8, 900), 2);
    policy.submit(&mut store, &sub("P", "math", "S", 8, 600), 3);
    let worst = store.query_worst("math", 8).unwrap();
    assert_eq!(worst.time_millis, 900);
    assert!(store.query_worst("logic", 8).is_none());
}

#[test]
fn backfill_fills_missing_columns() {
    let raw = RawScoreRecord {
        id: 17,
        name: None,
        course: None,
        school: None,
        school_id: None,
        time_millis: None,
        completed_at: None,
    };
    let r = backfill_record(raw, 42);
    assert_eq!(r.id, 17);
    assert_eq!(r.name, "Anonymous");
    assert_eq!(r.course, "default");
    assert_eq!(r.school, "Unknown School");
    assert_eq!(r.school_id, 0);
    assert_eq!(r.time_millis, 999_999_000);
    assert_eq!(r.completed_at, 42);

    let kept = RawScoreRecord {
        id: 18,
        name: Some("K".to_string()),
        course: Some("math".to_string()),
        school: Some("S".to_string()),
        school_id: Some(3),
        time_millis: Some(777),
        completed_at: Some(9),
    };
    let r = backfill_record(kept, 42);
    assert_eq!(r.name, "K");
    assert_eq!(r.course, "math");
    assert_eq!(r.time_millis, 777);
    assert_eq!(r.completed_at, 9);
}

#[test]
fn accepted_ids_are_fresh_and_distinct() {
    let mut store = RankingStore::new();
    let policy = SubmissionPolicy::BoundedCourse { cap: 10 };
    let mut ids = Vec::new();
    for k in 0..4u64 {
        match policy.submit(&mut store, &sub("P", "math", "S", 1, 100 + k), k) {
            SubmissionOutcome::Accepted { id } => ids.push(id),
            _ => panic!("bounded mode accepts every submission"),
        }
    }
    for a in 0..ids.len() {
        for b in (a + 1)..ids.len() {
            assert_ne!(ids[a], ids[b]);
        }
    }
}
