use half::f16;
use kannolo::arithmetic::Arithmetic;
use kannolo::dense::PlainDenseDataset;
use kannolo::error::{BuildError, IndexError};
use kannolo::multivec::{
    decode_dataset, document_offsets, load_multivec_dataset_plain, load_multivec_dataset_pq_generic,
    plain_dataset, rebuild_tokens, supports_two_level, MultiVectorDataset, KSUB,
};

struct Ieee;

impl Arithmetic<f32> for Ieee {
    fn zero(&self) -> f32 {
        0.0
    }
    fn plus(&self, a: f32, b: f32) -> f32 {
        a + b
    }
    fn minus(&self, a: f32, b: f32) -> f32 {
        a - b
    }
    fn times(&self, a: f32, b: f32) -> f32 {
        a * b
    }
    fn twice(&self, a: f32) -> f32 {
        2.0 * a
    }
    fn bits(&self, a: f32) -> u32 {
        a.to_bits()
    }
}

#[test]
fn documents_are_ranges_of_values() {
    assert_eq!(document_offsets(&[2, 0, 3], 4), vec![0, 8, 8, 20]);
    assert_eq!(document_offsets(&[], 4), vec![0]);
}

#[test]
fn plain_tokens_are_widened() {
    let bits: Vec<u16> = [1.0f32, 2.0, 3.0, 4.0].iter().map(|v| f16::from_f32(*v).to_bits()).collect();
    let widen = |b: u16| f16::from_bits(b).to_f32();
    let dataset = plain_dataset(&bits, 2, &[1, 1], &widen);
    assert_eq!(dataset.values, vec![1.0, 2.0, 3.0, 4.0]);
    assert_eq!((dataset.offsets, dataset.token_dim), (vec![0, 2, 4], 2));
    let loaded = load_multivec_dataset_plain(
        &widen,
        || Ok::<_, String>(PlainDenseDataset::from_raw(bits.clone(), 2, 2)),
        || Ok(vec![2]),
    )
    .unwrap();
    assert_eq!((loaded.offsets, loaded.values.len()), (vec![0, 4], 4));
    let failed: Result<MultiVectorDataset<f32>, String> = load_multivec_dataset_plain(
        &widen,
        || Err("documents".to_string()),
        || Err("lengths".to_string()),
    );
    assert!(matches!(failed, Err(why) if why == "documents"));
}

/// Codebooks of two subspaces of one value each: code `c` stands for `c` in the first
/// and for `100 * c` in the second.
fn codebooks() -> Vec<f32> {
    let mut books: Vec<f32> = (0..KSUB).map(|c| c as f32).collect();
    books.extend((0..KSUB).map(|c| 100.0 * c as f32));
    books
}

fn coarse() -> PlainDenseDataset<f32> {
    PlainDenseDataset::from_raw(vec![0.25, 0.5, 0.125, 0.75], 2, 2)
}

#[test]
fn tokens_are_the_sum_of_centroid_and_code() {
    let codes = PlainDenseDataset::from_raw(vec![1u8, 2, 255, 0], 2, 2);
    let tokens = rebuild_tokens(&Ieee, &coarse(), &codebooks(), &codes, &[1, 0], 2, 1).unwrap();
    assert_eq!(tokens, vec![1.125, 200.75, 255.25, 0.5]);
    let failed = rebuild_tokens(&Ieee, &coarse(), &codebooks(), &codes, &[1, 2], 2, 1);
    assert!(matches!(failed, Err(IndexError::CoarseOutOfRange { index: 2, n_coarse: 2 })));
}

fn load(codes_dim: usize, assignments: Vec<u64>) -> Result<MultiVectorDataset<f32>, BuildError<String>> {
    load_multivec_dataset_pq_generic(
        2,
        &Ieee,
        || Ok(coarse()),
        || Ok(codebooks()),
        || Ok(vec![1, 1]),
        || Ok(PlainDenseDataset::from_raw(vec![1u8; 2 * codes_dim], 2, codes_dim)),
        || Ok(assignments),
    )
}

#[test]
fn two_level_codes_are_decoded() {
    let dataset = load(2, vec![0, 1]).map_err(|_| ()).unwrap();
    assert_eq!(dataset.values, vec![1.25, 100.5, 1.125, 100.75]);
    assert_eq!((dataset.offsets, dataset.token_dim), (vec![0, 2, 4], 2));
}

#[test]
fn two_level_codes_must_agree() {
    assert!(matches!(
        load(3, vec![0, 1]),
        Err(BuildError::Invalid(IndexError::SubspaceMismatch { got: 3, expected: 2 }))
    ));
    assert!(matches!(
        load(2, vec![0]),
        Err(BuildError::Invalid(IndexError::AssignmentLength { got: 1, n_tokens: 2 }))
    ));
    assert!(matches!(
        load(2, vec![0, 9]),
        Err(BuildError::Invalid(IndexError::CoarseOutOfRange { index: 9, n_coarse: 2 }))
    ));
    let codes = PlainDenseDataset::from_raw(vec![0u8, 0], 1, 2);
    let direct: Result<MultiVectorDataset<f32>, BuildError<String>> =
        decode_dataset(&Ieee, 2, &coarse(), &codebooks(), &[1], &codes, &[0, 1]);
    assert!(matches!(
        direct,
        Err(BuildError::Invalid(IndexError::AssignmentLength { got: 2, n_tokens: 1 }))
    ));
}

#[test]
fn the_first_file_that_fails_ends_the_load() {
    let failed: Result<MultiVectorDataset<f32>, BuildError<&str>> = load_multivec_dataset_pq_generic(
        2,
        &Ieee,
        || Ok(coarse()),
        || Ok(codebooks()),
        || Err("lengths"),
        || Err("codes"),
        || Err("assignments"),
    );
    assert!(matches!(failed, Err(BuildError::Io("lengths"))));
}

#[test]
fn two_level_codes_have_few_subspace_counts() {
    let supported: Vec<usize> = (0..100).filter(|m| supports_two_level(*m)).collect();
    assert_eq!(supported, vec![8, 16, 32, 64]);
}
