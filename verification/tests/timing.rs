use kannolo::ranking::ScoredVector;
use kannolo::timing::{average_micros, result_rows, run_queries, to_pairs, TimedReply};

fn rows(replies: &[Vec<(f32, usize)>]) -> Vec<(usize, usize, usize, f32)> {
    result_rows(replies).iter().map(|r| (r.query_id, r.doc_id, r.rank, r.score)).collect()
}

fn search(base: &u64, query: usize) -> TimedReply<f32> {
    let found = (0..2)
        .map(|i| ScoredVector { distance: query as f32, vector: base + 10 * query as u64 + i })
        .collect();
    TimedReply { found, micros: 7 + query as u128 }
}

#[test]
fn more_runs_only_add_time() {
    let once = vec![vec![(0.0, 100), (0.0, 101)], vec![(1.0, 110), (1.0, 111)]];
    for runs in 1..4 {
        let report = run_queries(&100, 2, runs, &search);
        assert_eq!(report.replies, once);
        assert_eq!(report.total_micros, 15 * runs as u128);
        assert_eq!(rows(&report.replies), rows(&once));
    }
    let none = run_queries(&100, 2, 0, &search);
    assert!(none.replies.is_empty());
    assert_eq!(none.total_micros, 0);
}

#[test]
fn the_last_run_is_the_one_that_is_kept() {
    let asked = std::cell::Cell::new(0u64);
    let counting = |_: &(), _: usize| {
        asked.set(asked.get() + 1);
        TimedReply { found: vec![ScoredVector { distance: 0.0f32, vector: asked.get() }], micros: 1 }
    };
    let report = run_queries(&(), 2, 3, &counting);
    assert_eq!(report.replies, vec![vec![(0.0, 5)], vec![(0.0, 6)]]);
    assert_eq!(report.total_micros, 6);
}

#[test]
fn the_average_is_over_queries_and_runs() {
    assert_eq!(average_micros(45, 2, 3), 7);
    assert_eq!(average_micros(0, 5, 5), 0);
}

#[test]
fn rows_give_query_rank_and_score() {
    let replies = vec![to_pairs(&search(&0, 1).found), to_pairs(&search(&0, 2).found)];
    assert_eq!(rows(&replies), vec![(0, 10, 1, 1.0), (0, 11, 2, 1.0), (1, 20, 1, 2.0), (1, 21, 2, 2.0)]);
}

#[test]
fn a_short_reply_leaves_the_rows_of_other_queries_alone() {
    let replies = vec![vec![(0.5, 7)], vec![], vec![(0.25, 3), (0.5, 9), (1.0, 4)], vec![(2.0, 7)]];
    assert_eq!(
        rows(&replies),
        vec![(0, 7, 1, 0.5), (2, 3, 1, 0.25), (2, 9, 2, 0.5), (2, 4, 3, 1.0), (3, 7, 1, 2.0)]
    );
    assert!(rows(&[]).is_empty());
}
