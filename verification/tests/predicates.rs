use discounted_revenue::rows::LineItem;
use discounted_revenue::rows::Part;
use discounted_revenue::rows::Tier;
use discounted_revenue::rows::lineitem_matches_tier;
use discounted_revenue::rows::lineitem_passes_filter;
use discounted_revenue::rows::part_matches_tier;
use discounted_revenue::rows::revenue;
use discounted_revenue::bytes::starts_with;

fn bytes(s: &str) -> Vec<u8> {
    s.as_bytes().to_vec()
}

fn line_item(quantity: u64, ship_mode: &str, ship_instruct: &str) -> LineItem {
    LineItem {
        part_key: 1,
        quantity,
        extended_price: 1000,
        discount: 10,
        ship_mode: bytes(ship_mode),
        ship_instruct: bytes(ship_instruct),
    }
}

fn part(brand: &str, container: &str, size: u64) -> Part {
    Part { part_key: 1, brand: bytes(brand), container: bytes(container), size }
}

#[test]
fn starts_with_is_prefix_comparison() {
    assert!(starts_with(b"AIR REG", b"AIR"));
    assert!(starts_with(b"AIR", b"AIR"));
    assert!(!starts_with(b"AI", b"AIR"));
    assert!(!starts_with(b"SEA", b"AIR"));
    assert!(starts_with(b"", b""));
}

#[test]
fn filter_accepts_air_prefix_and_deliver_prefix() {
    assert!(lineitem_passes_filter(&line_item(5, "AIR", "DELIVER IN PERSON FOO")));
    assert!(lineitem_passes_filter(&line_item(5, "AIR REG", "DELIVER IN PERSON")));
    // Prefix matching is deliberately a relaxation: any mode starting with
    // "AIR" passes, not only the two literal modes.
    assert!(lineitem_passes_filter(&line_item(5, "AIRX", "DELIVER IN PERSON")));
}

#[test]
fn filter_rejects_other_modes_and_instructions() {
    assert!(!lineitem_passes_filter(&line_item(5, "SEA", "DELIVER IN PERSON")));
    assert!(!lineitem_passes_filter(&line_item(5, "AIR", "DELIVER IN PERSO")));
    assert!(!lineitem_passes_filter(&line_item(5, "AIR", "TAKE BACK RETURN")));
    assert!(!lineitem_passes_filter(&line_item(5, "", "DELIVER IN PERSON")));
}

#[test]
fn quantity_ranges_per_tier() {
    let deliver = "DELIVER IN PERSON";
    for (q, t1, t2, t3) in [
        (0u64, false, false, false),
        (1, true, false, false),
        (5, true, false, false),
        (10, true, true, false),
        (11, true, true, false),
        (12, false, true, false),
        (20, false, true, true),
        (21, false, false, true),
        (30, false, false, true),
        (31, false, false, false),
    ] {
        let li = line_item(q, "AIR", deliver);
        assert_eq!(lineitem_matches_tier(&li, Tier::Tier1), t1, "quantity {}", q);
        assert_eq!(lineitem_matches_tier(&li, Tier::Tier2), t2, "quantity {}", q);
        assert_eq!(lineitem_matches_tier(&li, Tier::Tier3), t3, "quantity {}", q);
    }
}

#[test]
fn filtered_out_rows_match_no_tier() {
    let li = line_item(5, "SEA", "DELIVER IN PERSON");
    assert!(!lineitem_matches_tier(&li, Tier::Tier1));
    assert!(!lineitem_matches_tier(&li, Tier::Tier2));
    assert!(!lineitem_matches_tier(&li, Tier::Tier3));
}

#[test]
fn part_tiers_by_brand_and_container() {
    assert!(part_matches_tier(&part("Brand#12X", "SM CASE77", 3), Tier::Tier1));
    assert!(part_matches_tier(&part("Brand#12", "SM BOX", 5), Tier::Tier1));
    assert!(part_matches_tier(&part("Brand#23", "MED BAG", 10), Tier::Tier2));
    assert!(part_matches_tier(&part("Brand#34", "LG PACK", 15), Tier::Tier3));
    // A part matches at most one tier: the brand prefixes are disjoint.
    let p = part("Brand#12X", "MED PKG", 3);
    assert!(part_matches_tier(&p, Tier::Tier1));
    assert!(!part_matches_tier(&p, Tier::Tier2));
    assert!(!part_matches_tier(&p, Tier::Tier3));
}

#[test]
fn part_size_bounds_are_inclusive() {
    assert!(!part_matches_tier(&part("Brand#12", "SM CASE", 0), Tier::Tier1));
    assert!(part_matches_tier(&part("Brand#12", "SM CASE", 1), Tier::Tier1));
    assert!(part_matches_tier(&part("Brand#12", "SM CASE", 5), Tier::Tier1));
    assert!(!part_matches_tier(&part("Brand#12", "SM CASE", 6), Tier::Tier1));
    assert!(part_matches_tier(&part("Brand#23", "MED BOX", 10), Tier::Tier2));
    assert!(!part_matches_tier(&part("Brand#23", "MED BOX", 11), Tier::Tier2));
    assert!(part_matches_tier(&part("Brand#34", "LG CASE", 15), Tier::Tier3));
    assert!(!part_matches_tier(&part("Brand#34", "LG CASE", 16), Tier::Tier3));
}

#[test]
fn container_families_keep_their_quirks() {
    // The first tier's fourth container prefix is "MED PKG", not "SM PKG".
    assert!(part_matches_tier(&part("Brand#12", "MED PKG", 3), Tier::Tier1));
    assert!(!part_matches_tier(&part("Brand#12", "SM PKG", 3), Tier::Tier1));
    // The third tier's fourth container prefix is "LG PCG", not "LG PKG".
    assert!(part_matches_tier(&part("Brand#34", "LG PCG", 3), Tier::Tier3));
    assert!(!part_matches_tier(&part("Brand#34", "LG PKG", 3), Tier::Tier3));
}

#[test]
fn unknown_brand_matches_no_tier() {
    let p = part("Brand#13", "SM CASE", 3);
    assert!(!part_matches_tier(&p, Tier::Tier1));
    assert!(!part_matches_tier(&p, Tier::Tier2));
    assert!(!part_matches_tier(&p, Tier::Tier3));
}

#[test]
fn revenue_is_truncating_integer_arithmetic() {
    let mut li = line_item(5, "AIR", "DELIVER IN PERSON");
    li.extended_price = 1000;
    li.discount = 10;
    assert_eq!(revenue(&li), 900);
    li.extended_price = 999;
    li.discount = 3;
    // 999 * 97 = 96903; truncating division by 100 gives 969.
    assert_eq!(revenue(&li), 969);
    li.extended_price = 1;
    li.discount = 99;
    assert_eq!(revenue(&li), 0);
    li.extended_price = 12345;
    li.discount = 0;
    assert_eq!(revenue(&li), 12345);
    li.extended_price = 12345;
    li.discount = 100;
    assert_eq!(revenue(&li), 0);
}
