use kannolo::dense::{convert_values, copy_values, PlainDenseDataset};
use kannolo::grouping::{cluster_offsets, cluster_order};

#[test]
fn vectors_are_grouped_by_cluster_in_their_order() {
    let clusters = [2, 0, 2, 3, 0];
    let offsets = cluster_offsets(&clusters, 4);
    assert_eq!(offsets, vec![0, 2, 2, 4, 5]);
    let order = cluster_order(&clusters, 4, &offsets);
    assert_eq!(order, vec![1, 4, 0, 2, 3]);
}

#[test]
fn nothing_to_group_leaves_empty_clusters() {
    let offsets = cluster_offsets(&[], 3);
    assert_eq!(offsets, vec![0, 0, 0, 0]);
    assert_eq!(cluster_order(&[], 3, &offsets), Vec::<u32>::new());
    assert_eq!(cluster_offsets(&[], 0), vec![0]);
}

#[test]
fn rows_are_selected_and_converted() {
    let dataset = PlainDenseDataset::from_raw(vec![1u8, 2, 3, 4, 5, 6], 3, 2);
    assert_eq!((dataset.len(), dataset.input_dim()), (3, 2));
    assert_eq!(dataset.get(1), &[3, 4]);
    let picked = dataset.select(&[2, 0, 2]);
    assert_eq!(picked.values(), &vec![5, 6, 1, 2, 5, 6]);
    let wide = dataset.convert(&|v: u8| v as u32 * 100);
    assert_eq!(wide.values(), &vec![100, 200, 300, 400, 500, 600]);
    assert_eq!((wide.len(), wide.input_dim()), (3, 2));
    assert_eq!(convert_values(&[1u8, 2], &|v: u8| v + 1), vec![2, 3]);
    assert_eq!(copy_values(&[1u8, 2]), vec![1, 2]);
}
