use kannolo::error::IndexError;
use kannolo::query::{
    configured, count_queries, search_dense, search_dense_batch, search_nth, thread_model,
    EarlyTerminationStrategy, ThreadModel,
};
use kannolo::ranking::ScoredVector;
use kannolo::results::{concat_packed, pack_results, push_results};

fn scored(distance: f32, vector: u64) -> ScoredVector<f32> {
    ScoredVector { distance, vector }
}

#[test]
fn results_are_padded_to_k() {
    let (distances, ids) = pack_results(&[scored(1.0, 7), scored(2.0, 3)], 4, f32::INFINITY);
    assert_eq!(distances, vec![1.0, 2.0, f32::INFINITY, f32::INFINITY]);
    assert_eq!(ids, vec![7, 3, -1, -1]);
    let (distances, ids) = pack_results(&[], 2, f32::INFINITY);
    assert_eq!(distances, vec![f32::INFINITY; 2]);
    assert_eq!(ids, vec![-1, -1]);
}

#[test]
fn results_past_k_are_dropped() {
    let found = [scored(1.0, 7), scored(2.0, 3)];
    assert_eq!(pack_results(&found, 1, f32::INFINITY), (vec![1.0], vec![7]));
}

#[test]
fn results_are_appended() {
    let mut distances = vec![9.0];
    let mut ids = vec![9];
    push_results(&[scored(1.0, 7)], 2, f32::INFINITY, &mut distances, &mut ids);
    assert_eq!(distances, vec![9.0, 1.0, f32::INFINITY]);
    assert_eq!(ids, vec![9, 7, -1]);
}

#[test]
fn parts_are_joined_in_order() {
    let parts = [(vec![1.0], vec![1]), (vec![], vec![]), (vec![2.0, 3.0], vec![2, 3])];
    assert_eq!(concat_packed(&parts), (vec![1.0, 2.0, 3.0], vec![1, 2, 3]));
}

/// A search that answers with the query's first value and the offset it is given.
fn first_value(offset: &u64, query: &[f32], k: usize, extra: &u64) -> Vec<ScoredVector<f32>> {
    (0..k.min(2) as u64).map(|i| scored(query[0], offset + extra + i)).collect()
}

#[test]
fn single_queries_must_have_the_dimension() {
    let found = search_dense(&10u64, 2, &[4.0f32, 5.0], 3, &100u64, f32::INFINITY, &first_value);
    let (distances, ids) = found.unwrap();
    assert_eq!(distances, vec![4.0, 4.0, f32::INFINITY]);
    assert_eq!(ids, vec![110, 111, -1]);
    let wrong = search_dense(&10u64, 2, &[4.0f32], 3, &100u64, f32::INFINITY, &first_value);
    assert!(matches!(wrong, Err(IndexError::QueryDimension { got: 1, dim: 2 })));
}

#[test]
fn batches_are_answered_query_after_query() {
    let queries = [1.0f32, 0.0, 2.0, 0.0, 3.0, 0.0];
    let (distances, ids) =
        search_dense_batch(&0u64, 2, &queries, 1, &5u64, f32::INFINITY, &first_value).unwrap();
    assert_eq!(distances, vec![1.0, 2.0, 3.0]);
    assert_eq!(ids, vec![5, 5, 5]);
    let parts: Vec<(Vec<f32>, Vec<i64>)> = (0..count_queries(6, 2).unwrap())
        .map(|i| search_nth(&0u64, 2, &queries, i, 1, &5u64, f32::INFINITY, &first_value))
        .collect();
    assert_eq!(concat_packed(&parts), (distances, ids));
    let wrong = search_dense_batch(&0u64, 4, &queries, 1, &5u64, f32::INFINITY, &first_value);
    assert!(matches!(wrong, Err(IndexError::QueriesLength { len: 6, dim: 4 })));
    assert!(matches!(count_queries(7, 2), Err(IndexError::QueriesLength { len: 7, dim: 2 })));
    assert_eq!(count_queries(0, 2).unwrap(), 0);
}

#[test]
fn an_early_exit_threshold_makes_the_search_adaptive() {
    let config = configured(40, Some(0.5f32), ());
    assert_eq!(config.ef_search, 40);
    assert!(matches!(
        config.early_termination,
        EarlyTerminationStrategy::DistanceAdaptive { lambda } if lambda == 0.5
    ));
    let config = configured(40, None::<f32>, 3u32);
    assert!(matches!(config.early_termination, EarlyTerminationStrategy::Disabled));
    assert_eq!(config.query_params, 3);
}

#[test]
fn thread_counts_name_a_model() {
    assert_eq!(thread_model(0), ThreadModel::DefaultPool);
    assert_eq!(thread_model(1), ThreadModel::Serial);
    assert_eq!(thread_model(8), ThreadModel::Pool(8));
}
