use vecscan::topk::{max_key, top_k, TOP_K};

#[test]
fn top_k_orders_descending() {
    let scores: Vec<u64> = vec![3, 1, 4, 1, 5, 9, 2, 6];
    let r = top_k(&scores, 3);
    assert_eq!(r, vec![9, 6, 5]);
}

#[test]
fn top_k_keeps_ties() {
    let scores: Vec<u64> = vec![2, 2, 1];
    let r = top_k(&scores, TOP_K);
    assert_eq!(r, vec![2, 2, 1]);
}

#[test]
fn top_k_length_is_min_of_k_and_count() {
    let scores: Vec<u64> = vec![10, 30, 20];
    assert_eq!(top_k(&scores, 5).len(), 3);
    assert_eq!(top_k(&scores, 2).len(), 2);
    assert_eq!(top_k(&scores, 0).len(), 0);
}

#[test]
fn top_k_of_empty_is_empty() {
    let scores: Vec<u64> = Vec::new();
    assert_eq!(top_k(&scores, TOP_K), Vec::<u64>::new());
}

#[test]
fn top_k_equals_sorted_truncated() {
    let scores: Vec<u64> = vec![8, 3, 3, 7, 0, 12, 7];
    let mut sorted = scores.clone();
    sorted.sort();
    sorted.reverse();
    sorted.truncate(TOP_K);
    assert_eq!(top_k(&scores, TOP_K), sorted);
}

#[test]
fn max_key_of_empty_is_none() {
    assert_eq!(max_key(&Vec::new()), None);
}

#[test]
fn max_key_picks_largest() {
    assert_eq!(max_key(&vec![1, 7, 3]), Some(7));
    assert_eq!(max_key(&vec![4]), Some(4));
    assert_eq!(max_key(&vec![5, 5, 2]), Some(5));
}
