use kannolo::error::IndexError;
use kannolo::flat::SparseFlatIndex;
use kannolo::ranking::ScoredVector;
use kannolo::results::concat_packed;
use kannolo::sparse::{
    build_sparse_dataset_from_parts, convert_components_to_u16, dimension_of, offsets_to_positions,
    validate_offsets, PlainSparseDataset,
};
use kannolo::sparse_query::{search_sparse, search_sparse_batch, search_sparse_nth};

#[test]
fn offsets_start_at_zero_end_at_the_values_and_never_decrease() {
    assert!(validate_offsets(&[0], 0).is_ok());
    assert!(validate_offsets(&[0, 2, 2, 5], 5).is_ok());
    assert!(matches!(validate_offsets(&[], 0), Err(IndexError::OffsetsEmpty)));
    assert!(matches!(validate_offsets(&[1, 5], 5), Err(IndexError::OffsetsStart)));
    assert!(matches!(validate_offsets(&[0, 4], 5), Err(IndexError::OffsetsEnd)));
    assert!(matches!(validate_offsets(&[0, 6, 5], 5), Err(IndexError::OffsetsOrder)));
    assert!(matches!(validate_offsets(&[3, 1, 4], 5), Err(IndexError::OffsetsStart)));
}

#[test]
fn negative_offsets_become_far_positions() {
    assert_eq!(offsets_to_positions(&[0, 3, -1]), vec![0, 3, usize::MAX]);
}

#[test]
fn components_fit_sixteen_bits() {
    assert_eq!(convert_components_to_u16(&[0, 65535, 7]).unwrap(), vec![0, 65535, 7]);
    assert!(matches!(convert_components_to_u16(&[0, 65536]), Err(IndexError::ComponentOutOfRange)));
    assert!(matches!(convert_components_to_u16(&[-1]), Err(IndexError::ComponentOutOfRange)));
    assert_eq!(convert_components_to_u16(&[]).unwrap(), Vec::<u16>::new());
}

#[test]
fn the_dimension_is_one_past_the_largest_component() {
    assert_eq!(dimension_of(&[]), 0);
    assert_eq!(dimension_of(&[0]), 1);
    assert_eq!(dimension_of(&[4, 65535, 2]), 65536);
}

#[test]
fn rows_make_up_the_dataset() {
    let dataset =
        build_sparse_dataset_from_parts(&[1, 5, 2], &[0.1f32, 0.5, 0.2], &[0, 2, 2, 3], 6).unwrap();
    assert_eq!(dataset.len(), 3);
    assert_eq!(dataset.input_dim(), 6);
    assert_eq!(dataset.get(0), (&[1u16, 5][..], &[0.1f32, 0.5][..]));
    assert_eq!(dataset.get(1), (&[][..], &[][..]));
    assert_eq!(dataset.get(2), (&[2u16][..], &[0.2f32][..]));
    let failed = build_sparse_dataset_from_parts(&[1], &[0.1f32], &[0, 2], 6);
    assert!(matches!(failed, Err(IndexError::OffsetsEnd)));
}

#[test]
fn rows_are_appended() {
    let mut dataset: PlainSparseDataset<u8> = PlainSparseDataset::new(4);
    assert_eq!(dataset.len(), 0);
    dataset.push(&[3, 1], &[9, 8]);
    dataset.push(&[], &[]);
    assert_eq!(dataset.len(), 2);
    assert_eq!(dataset.get(0), (&[3u16, 1][..], &[9u8, 8][..]));
}

fn overlap(dataset: &PlainSparseDataset<f32>, components: &[u16], values: &[f32], k: usize, _: &()) -> Vec<ScoredVector<f32>> {
    let mut found: Vec<ScoredVector<f32>> = (0..dataset.len())
        .map(|i| {
            let (c, v) = dataset.get(i);
            let mut distance = 0.0;
            for (x, y) in c.iter().zip(v) {
                for (z, w) in components.iter().zip(values) {
                    if x == z {
                        distance += y * w;
                    }
                }
            }
            ScoredVector { distance, vector: i as u64 }
        })
        .collect();
    found.sort_by(|a, b| b.distance.total_cmp(&a.distance));
    found.truncate(k);
    found
}

fn three_rows() -> PlainSparseDataset<f32> {
    build_sparse_dataset_from_parts(&[0, 1, 2], &[1.0f32, 2.0, 3.0], &[0, 1, 2, 3], 3).unwrap()
}

#[test]
fn sparse_queries_are_converted_and_padded() {
    let (distances, ids) =
        search_sparse(&three_rows(), &[1], &[10.0], 4, &(), f32::INFINITY, &overlap).unwrap();
    assert_eq!((distances[0], ids[0]), (20.0, 1));
    assert_eq!((distances[3], ids[3]), (f32::INFINITY, -1));
    let failed = search_sparse(&three_rows(), &[70000], &[10.0], 4, &(), f32::INFINITY, &overlap);
    assert!(matches!(failed, Err(IndexError::ComponentOutOfRange)));
}

#[test]
fn sparse_batches_follow_their_offsets() {
    let index = three_rows();
    let (components, values) = (vec![2, 0, 1], vec![1.0, 5.0, 1.0]);
    let (distances, ids) =
        search_sparse_batch(&index, &components, &values, &[0, 1, 3], 1, &(), f32::INFINITY, &overlap)
            .unwrap();
    assert_eq!((distances.clone(), ids.clone()), (vec![3.0, 5.0], vec![2, 0]));
    let parts: Vec<(Vec<f32>, Vec<i64>)> = (0..2)
        .map(|i| {
            search_sparse_nth(&index, &[2, 0, 1], &values, &[0, 1, 3], i, 1, &(), f32::INFINITY, &overlap)
        })
        .collect();
    assert_eq!(concat_packed(&parts), (distances, ids));
    let failed =
        search_sparse_batch(&index, &[-5], &[1.0], &[0, 1], 1, &(), f32::INFINITY, &overlap);
    assert!(matches!(failed, Err(IndexError::ComponentOutOfRange)));
}

fn over_index(index: &SparseFlatIndex<PlainSparseDataset<f32>>, c: &[u16], v: &[f32], k: usize, p: &()) -> Vec<ScoredVector<f32>> {
    overlap(index.dataset(), c, v, k, p)
}

#[test]
fn a_sparse_index_is_built_from_arrays() {
    let index =
        SparseFlatIndex::build_from_arrays(&[0, 1, 2], &[1.0f64, 2.0, 3.0], &[0, 1, 2, 3], &|v: f64| v as f32)
            .unwrap();
    assert_eq!(index.dataset().input_dim(), 3);
    let (distances, ids) = index.search(&[2], &[2.0], 1, f32::INFINITY, &over_index).unwrap();
    assert_eq!((distances, ids), (vec![6.0], vec![2]));
    let (distances, ids) =
        index.batch_search(&[2, 1], &[1.0, 1.0], &[0, 1, 2], 1, f32::INFINITY, &over_index).unwrap();
    assert_eq!((distances, ids), (vec![3.0, 2.0], vec![2, 1]));
    let failed = SparseFlatIndex::build_from_arrays(&[0, 1], &[1.0f32, 2.0], &[0, -1, 2], &|v: f32| v);
    assert!(matches!(failed, Err(IndexError::OffsetsOrder)));
    let failed = SparseFlatIndex::build_from_arrays(&[-2], &[1.0f32], &[0, 1], &|v: f32| v);
    assert!(matches!(failed, Err(IndexError::ComponentOutOfRange)));
}

#[test]
fn a_sparse_index_is_read_and_written() {
    let index = SparseFlatIndex::build_from_file(|| Ok::<_, String>(three_rows())).unwrap();
    assert_eq!(index.dataset().len(), 3);
    assert_eq!(index.save(|d: &PlainSparseDataset<f32>| Err::<(), usize>(d.len())), Err(3));
    let failed: Result<SparseFlatIndex<PlainSparseDataset<f32>>, String> =
        SparseFlatIndex::load(|| Err("gone".to_string()));
    assert!(matches!(failed, Err(why) if why == "gone"));
}
