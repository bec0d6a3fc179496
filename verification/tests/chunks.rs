use credit::types::{AgeAmount, AgeAmounts};

fn entry(chunks: &[(u128, u64)]) -> AgeAmounts {
    let mut entry = AgeAmounts::new();
    for (amount, expired) in chunks {
        entry.push(AgeAmount { amount: *amount, expired: *expired });
    }
    entry
}

fn chunk(amount: u128, expired: u64) -> AgeAmount {
    AgeAmount { amount, expired }
}

#[test]
fn new_entry_is_empty() {
    let e = AgeAmounts::new();
    assert!(e.amounts.is_empty());
    assert_eq!(e.sum(), 0);
}

#[test]
fn sum_adds_all_chunks() {
    let e = entry(&[(1, 10), (2, 20), (40, 5)]);
    assert_eq!(e.sum(), 43);
}

#[test]
fn sum_reaches_the_largest_amount() {
    let e = entry(&[(u128::MAX - 1, 10), (1, 20)]);
    assert_eq!(e.sum(), u128::MAX);
}

#[test]
fn push_appends_as_newest() {
    let mut e = entry(&[(1, 10)]);
    e.push(chunk(2, 5));
    assert_eq!(e.amounts, vec![chunk(1, 10), chunk(2, 5)]);
}

#[test]
fn spend_consumes_oldest_first_and_redates_the_remainder() {
    let mut e = entry(&[(10, 100), (5, 200)]);
    e.spend(12, 1150);
    assert_eq!(e.amounts, vec![chunk(3, 1150)]);
}

#[test]
fn spend_leaves_later_chunks_untouched_and_puts_the_remainder_last() {
    let mut e = entry(&[(10, 100), (5, 200), (8, 300), (1, 400)]);
    e.spend(12, 999);
    assert_eq!(e.amounts, vec![chunk(8, 300), chunk(1, 400), chunk(3, 999)]);
}

#[test]
fn spend_of_exactly_one_chunk_leaves_no_remainder() {
    let mut e = entry(&[(10, 100), (5, 200)]);
    e.spend(10, 999);
    assert_eq!(e.amounts, vec![chunk(5, 200)]);
}

#[test]
fn spend_of_part_of_the_first_chunk() {
    let mut e = entry(&[(10, 100), (5, 200)]);
    e.spend(4, 999);
    assert_eq!(e.amounts, vec![chunk(5, 200), chunk(6, 999)]);
}

#[test]
fn spend_of_everything_empties_the_entry() {
    let mut e = entry(&[(10, 100), (5, 200)]);
    e.spend(15, 999);
    assert!(e.amounts.is_empty());
}

#[test]
fn spend_of_nothing_changes_nothing() {
    let mut e = entry(&[(10, 100), (5, 200)]);
    e.spend(0, 999);
    assert_eq!(e.amounts, vec![chunk(10, 100), chunk(5, 200)]);
}

#[test]
fn spend_of_more_than_the_entry_holds_empties_it() {
    let mut e = entry(&[(10, 100), (5, 200)]);
    e.spend(16, 999);
    assert!(e.amounts.is_empty());
}

#[test]
fn spend_passes_over_empty_chunks() {
    let mut e = entry(&[(0, 100), (5, 200)]);
    e.spend(2, 999);
    assert_eq!(e.amounts, vec![chunk(3, 999)]);
}

#[test]
fn spend_clamps_the_running_total() {
    let mut e = entry(&[(u128::MAX - 1, 100), (5, 200), (7, 300)]);
    e.spend(u128::MAX, 999);
    assert_eq!(e.amounts, vec![chunk(7, 300)]);
}

#[test]
fn sweep_removes_what_expired_before_now() {
    let mut e = entry(&[(7, 90), (3, 300)]);
    let reclaimed = e.sweep(100);
    assert_eq!(reclaimed, 7);
    assert_eq!(e.amounts, vec![chunk(3, 300)]);
}

#[test]
fn sweep_keeps_a_chunk_that_expires_now() {
    let mut e = entry(&[(7, 100), (3, 99), (2, 101)]);
    let reclaimed = e.sweep(100);
    assert_eq!(reclaimed, 3);
    assert_eq!(e.amounts, vec![chunk(7, 100), chunk(2, 101)]);
}

#[test]
fn sweep_keeps_the_order_of_what_stays() {
    let mut e = entry(&[(1, 500), (2, 10), (3, 400), (4, 20), (5, 300)]);
    let reclaimed = e.sweep(100);
    assert_eq!(reclaimed, 6);
    assert_eq!(e.amounts, vec![chunk(1, 500), chunk(3, 400), chunk(5, 300)]);
}

#[test]
fn sweep_clamps_what_it_reclaims() {
    let mut e = entry(&[(u128::MAX, 1), (9, 2)]);
    let reclaimed = e.sweep(100);
    assert_eq!(reclaimed, u128::MAX);
    assert!(e.amounts.is_empty());
}

#[test]
fn sweep_of_an_empty_entry() {
    let mut e = AgeAmounts::new();
    assert_eq!(e.sweep(100), 0);
    assert!(e.amounts.is_empty());
}
