use discounted_revenue::pipeline::QueryState;
use discounted_revenue::pipeline::query;
use discounted_revenue::rows::LineItem;
use discounted_revenue::rows::Part;
use discounted_revenue::rows::Tier;

fn bytes(s: &str) -> Vec<u8> {
    s.as_bytes().to_vec()
}

fn line_item(part_key: u64, quantity: u64, extended_price: u64, discount: u64) -> LineItem {
    LineItem {
        part_key,
        quantity,
        extended_price,
        discount,
        ship_mode: bytes("AIR"),
        ship_instruct: bytes("DELIVER IN PERSON FOO"),
    }
}

fn part(part_key: u64, brand: &str, container: &str, size: u64) -> Part {
    Part { part_key, brand: bytes(brand), container: bytes(container), size }
}

#[test]
fn a_fresh_query_plan_has_zero_result() {
    let mut s = query();
    s.update_lineitem(&line_item(1, 5, 1000, 10), 0, 1);
    s.update_part(&part(1, "Brand#12X", "SM CASE77", 3), 0, 1);
    assert_eq!(s.result(), 900);
}

#[test]
fn fresh_state_has_zero_result() {
    let s = QueryState::new();
    assert_eq!(s.result(), 0);
    assert_eq!(s.checked_result(), Some(0));
    assert!(!s.is_present(1, 900));
    assert_eq!(s.frontier, 0);
}

#[test]
fn single_match_counts_its_revenue() {
    // LineItem{partKey=1, quantity=5, extendedPrice=1000, discount=10} with
    // Part{partKey=1, brand="Brand#12X", container="SM CASE77", size=3}
    // matches the first tier; revenue = 1000 * 90 / 100 = 900.
    let mut s = QueryState::new();
    s.update_lineitem(&line_item(1, 5, 1000, 10), 0, 1);
    assert_eq!(s.result(), 0, "no part inserted yet");
    s.update_part(&part(1, "Brand#12X", "SM CASE77", 3), 0, 1);
    assert_eq!(s.line_multiplicity(Tier::Tier1, 1, 900), 1);
    assert_eq!(s.part_multiplicity(Tier::Tier1, 1), 1);
    assert_eq!(s.match_multiplicity(1, 900), 1);
    assert!(s.is_present(1, 900));
    assert_eq!(s.result(), 900);
}

#[test]
fn update_order_within_a_timestamp_is_irrelevant() {
    let mut a = QueryState::new();
    a.update_lineitem(&line_item(1, 5, 1000, 10), 0, 1);
    a.update_part(&part(1, "Brand#12X", "SM CASE77", 3), 0, 1);
    let mut b = QueryState::new();
    b.update_part(&part(1, "Brand#12X", "SM CASE77", 3), 0, 1);
    b.update_lineitem(&line_item(1, 5, 1000, 10), 0, 1);
    assert_eq!(a.result(), b.result());
    assert_eq!(a.result(), 900);
}

#[test]
fn out_of_range_quantity_contributes_nothing() {
    // quantity 15 misses the first tier's range [1, 11], and the part's
    // brand fits no other tier, so the pair is excluded entirely.
    let mut s = QueryState::new();
    s.update_lineitem(&line_item(1, 15, 1000, 10), 0, 1);
    s.update_part(&part(1, "Brand#12X", "SM CASE77", 3), 0, 1);
    assert_eq!(s.match_multiplicity(1, 900), 0);
    assert!(!s.is_present(1, 900));
    assert_eq!(s.result(), 0);
}

#[test]
fn retracting_the_part_returns_the_result_to_its_prior_value() {
    let mut s = QueryState::new();
    s.update_lineitem(&line_item(1, 5, 1000, 10), 0, 1);
    let before = s.result();
    s.update_part(&part(1, "Brand#12X", "SM CASE77", 3), 1, 1);
    assert_eq!(s.result(), 900);
    s.update_part(&part(1, "Brand#12X", "SM CASE77", 3), 2, -1);
    assert!(!s.is_present(1, 900));
    assert_eq!(s.result(), before);
    assert_eq!(s.result(), 0);
}

#[test]
fn lineitem_insert_then_retract_is_a_no_op() {
    let mut s = QueryState::new();
    s.update_lineitem(&line_item(7, 3, 500, 0), 0, 1);
    s.update_part(&part(7, "Brand#12", "SM BOX", 2), 0, 1);
    let before = s.result();
    let extra = line_item(7, 4, 2000, 25);
    s.update_lineitem(&extra, 1, 1);
    assert_eq!(s.result(), before + 1500);
    s.update_lineitem(&extra, 1, -1);
    assert_eq!(s.result(), before);
    assert_eq!(s.match_multiplicity(7, 1500), 0);
}

#[test]
fn boundary_quantity_is_counted_by_both_tiers() {
    // quantity 10 sits in both [1, 11] and [10, 20]; with one matching part
    // row in each tier, the match stream carries the pair twice, not once.
    let mut s = QueryState::new();
    s.update_part(&part(1, "Brand#12", "SM CASE", 3), 0, 1);
    s.update_part(&part(1, "Brand#23", "MED BOX", 7), 0, 1);
    s.update_lineitem(&line_item(1, 10, 1000, 10), 0, 1);
    assert_eq!(s.match_multiplicity(1, 900), 2);
    // Deduplication still counts the distinct pair's revenue once.
    assert_eq!(s.result(), 900);
    // Retracting one of the two part rows keeps the match present.
    s.update_part(&part(1, "Brand#23", "MED BOX", 7), 1, -1);
    assert_eq!(s.match_multiplicity(1, 900), 1);
    assert_eq!(s.result(), 900);
}

#[test]
fn boundary_quantity_twenty_spans_the_upper_tiers() {
    let mut s = QueryState::new();
    s.update_part(&part(2, "Brand#23", "MED PACK", 9), 0, 1);
    s.update_part(&part(2, "Brand#34", "LG CASE", 14), 0, 1);
    s.update_lineitem(&line_item(2, 20, 400, 50), 0, 1);
    assert_eq!(s.match_multiplicity(2, 200), 2);
    assert_eq!(s.result(), 200);
}

#[test]
fn equivalent_rows_are_deduplicated() {
    // Two structurally different line items produce the same
    // (partKey, revenue) pair: 1000 at 10% and 900 at 0% both yield 900.
    let mut s = QueryState::new();
    s.update_part(&part(1, "Brand#12X", "SM CASE77", 3), 0, 1);
    s.update_lineitem(&line_item(1, 5, 1000, 10), 0, 1);
    s.update_lineitem(&line_item(1, 6, 900, 0), 0, 1);
    assert_eq!(s.match_multiplicity(1, 900), 2);
    assert_eq!(s.result(), 900, "a pair present twice still counts once");
}

#[test]
fn distinct_pairs_add_up() {
    let mut s = QueryState::new();
    s.update_part(&part(1, "Brand#12", "SM CASE", 3), 0, 1);
    s.update_part(&part(2, "Brand#23", "MED BAG", 8), 0, 1);
    s.update_lineitem(&line_item(1, 5, 1000, 10), 0, 1);
    s.update_lineitem(&line_item(2, 15, 300, 0), 0, 1);
    // Same key, different revenue: a distinct pair of its own.
    s.update_lineitem(&line_item(1, 5, 2000, 10), 0, 1);
    assert_eq!(s.result(), 900 + 300 + 1800);
}

#[test]
fn part_multiplicity_weights_the_semijoin() {
    let mut s = QueryState::new();
    s.update_part(&part(1, "Brand#12", "SM PACK", 4), 0, 2);
    s.update_lineitem(&line_item(1, 5, 1000, 10), 0, 1);
    assert_eq!(s.match_multiplicity(1, 900), 2);
    assert_eq!(s.result(), 900);
    s.update_part(&part(1, "Brand#12", "SM PACK", 4), 1, -1);
    assert_eq!(s.match_multiplicity(1, 900), 1);
    assert!(s.is_present(1, 900));
    s.update_part(&part(1, "Brand#12", "SM PACK", 4), 2, -1);
    assert_eq!(s.match_multiplicity(1, 900), 0);
    assert!(!s.is_present(1, 900));
    assert_eq!(s.result(), 0);
}

#[test]
fn filtered_out_rows_never_reach_the_indexes() {
    let mut s = QueryState::new();
    let mut li = line_item(1, 5, 1000, 10);
    li.ship_mode = bytes("SEA");
    s.update_lineitem(&li, 0, 1);
    assert_eq!(s.line_multiplicity(Tier::Tier1, 1, 900), 0);
    let p = part(1, "Brand#99", "SM CASE", 3);
    s.update_part(&p, 0, 1);
    assert_eq!(s.part_multiplicity(Tier::Tier1, 1), 0);
    assert_eq!(s.result(), 0);
}

#[test]
fn frontier_advances_and_keeps_the_state() {
    let mut s = QueryState::new();
    s.update_lineitem(&line_item(1, 5, 1000, 10), 3, 1);
    s.update_part(&part(1, "Brand#12", "SM CASE", 3), 3, 1);
    s.advance_frontier(4);
    assert_eq!(s.frontier, 4);
    assert_eq!(s.result(), 900);
    s.update_part(&part(1, "Brand#12", "SM CASE", 3), 7, 1);
    s.advance_frontier(7);
    assert_eq!(s.frontier, 7);
    assert_eq!(s.match_multiplicity(1, 900), 2);
    assert_eq!(s.result(), 900);
}

#[test]
fn guarded_updates_reject_bad_rows_and_stale_timestamps() {
    let mut s = QueryState::new();
    let mut li = line_item(1, 5, 1000, 10);
    li.discount = 101;
    assert!(!s.try_update_lineitem(&li, 0, 1), "discount above 100 is rejected");
    li.discount = 10;
    li.extended_price = u64::MAX / 100 + 1;
    assert!(!s.try_update_lineitem(&li, 0, 1), "oversized price is rejected");
    li.extended_price = 1000;
    assert!(s.try_update_lineitem(&li, 5, 1), "well-formed update is accepted");
    s.advance_frontier(5);
    assert!(!s.try_update_lineitem(&li, 4, 1), "timestamp behind the watermark is rejected");
    assert!(!s.try_update_part(&part(1, "Brand#12", "SM CASE", 3), 4, 1));
    assert!(s.try_update_part(&part(1, "Brand#12", "SM CASE", 3), 5, 1));
    assert_eq!(s.result(), 900);
}

#[test]
fn guarded_updates_reject_multiplicity_overflow() {
    let mut s = QueryState::new();
    let li = line_item(1, 5, 1000, 10);
    assert!(s.try_update_lineitem(&li, 0, i64::MAX));
    assert!(!s.try_update_lineitem(&li, 0, 1), "line multiplicity would overflow");
    let p = part(1, "Brand#12", "SM CASE", 3);
    assert!(!s.try_update_part(&p, 0, 2), "match delta 2 * i64::MAX would overflow");
    assert!(s.try_update_part(&p, 0, 1), "match multiplicity i64::MAX still fits");
    assert_eq!(s.match_multiplicity(1, 900), i64::MAX);
    assert_eq!(s.result(), 900, "a huge multiplicity still counts once");
}

#[test]
fn checked_result_agrees_with_result() {
    let mut s = QueryState::new();
    s.update_part(&part(1, "Brand#34", "LG BOX", 12), 0, 1);
    s.update_lineitem(&line_item(1, 25, 4000, 75), 0, 1);
    assert_eq!(s.checked_result(), Some(1000));
    assert_eq!(s.result(), 1000);
}
