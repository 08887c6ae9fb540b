use kannolo::ranking::{value_key, Ranked, TopK};

fn item(key: i64, position: u32) -> Ranked<u8> {
    Ranked { key, position, distance: 0 }
}

#[test]
fn top_k_keeps_the_best_in_order() {
    let mut top = TopK::new(2);
    for (key, position) in [(5, 0), (3, 1), (9, 2), (3, 0), (4, 3)] {
        top.offer(item(key, position));
    }
    let kept: Vec<(i64, u32)> = top.into_sorted_vec().iter().map(|r| (r.key, r.position)).collect();
    assert_eq!(kept, vec![(3, 0), (3, 1)]);
}

#[test]
fn value_key_orders_bits() {
    assert_eq!(value_key(0.0f32.to_bits()), 0);
    assert_eq!(value_key((-0.0f32).to_bits()), 0);
    assert!(value_key((-2.0f32).to_bits()) < value_key((-1.0f32).to_bits()));
    assert!(value_key((-1.0f32).to_bits()) < value_key(0.5f32.to_bits()));
}

#[test]
fn what_is_kept_was_offered_and_ranks_before_the_rest() {
    let offered: Vec<(i64, u32)> = (0..40).map(|i| ((i * 17 % 23) as i64, i as u32)).collect();
    let mut top = TopK::new(10);
    for (key, position) in &offered {
        top.offer(item(*key, *position));
    }
    let kept: Vec<(i64, u32)> = top.into_sorted_vec().iter().map(|r| (r.key, r.position)).collect();
    let mut sorted = offered;
    sorted.sort();
    assert_eq!(kept, sorted[..10].to_vec());
}

#[test]
fn fewer_than_k_are_all_kept() {
    let mut top = TopK::new(10);
    top.offer(item(2, 0));
    top.offer(item(1, 1));
    let kept = top.into_sorted_vec();
    assert_eq!(kept.len(), 2);
    assert_eq!(kept[0].key, 1);
    let none: TopK<u8> = TopK::new(0);
    assert!(none.into_sorted_vec().is_empty());
}

#[test]
fn ties_go_to_the_lower_position() {
    assert!(item(1, 3).before(&item(1, 4)));
    assert!(!item(1, 4).before(&item(1, 3)));
    assert!(item(0, 9).before(&item(1, 3)));
    assert!(!item(1, 3).before(&item(1, 3)));
}

#[test]
fn offering_more_never_worsens_the_selection() {
    let offered: Vec<(i64, u32)> = (0..30).map(|i| ((i * 7 % 11) as i64, i as u32)).collect();
    let best = |n: usize| -> Vec<(i64, u32)> {
        let mut top = TopK::new(5);
        for (key, position) in &offered[..n] {
            top.offer(item(*key, *position));
        }
        top.into_sorted_vec().iter().map(|r| (r.key, r.position)).collect()
    };
    for n in 0..30 {
        let (fewer, more) = (best(n), best(n + 1));
        assert!(fewer.len() <= more.len());
        for (a, b) in fewer.iter().zip(&more) {
            assert!(b <= a);
        }
    }
    assert_eq!(best(4).len(), 4);
}

#[test]
fn the_selection_does_not_depend_on_the_order_of_offers() {
    let offered: Vec<(i64, u32)> = (0..25).map(|i| ((i * 3 % 5) as i64, i as u32)).collect();
    let select = |items: &[(i64, u32)]| -> Vec<(i64, u32)> {
        let mut top = TopK::new(7);
        for (key, position) in items {
            top.offer(item(*key, *position));
        }
        top.into_sorted_vec().iter().map(|r| (r.key, r.position)).collect()
    };
    let mut reversed = offered.clone();
    reversed.reverse();
    assert_eq!(select(&offered), select(&reversed));
}
