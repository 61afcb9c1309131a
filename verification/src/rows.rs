//! The two relations' row types, the shipping predicate, and the three
//! predicate tiers of the disjunctive query.

use vstd::prelude::*;
use crate::bytes::is_prefix_of;
use crate::bytes::starts_with;

verus! {

/// A fact row: one line item, with byte-string shipping attributes.
/// `extended_price` and `discount` are scaled integers; a well-formed row
/// keeps `discount` in 0..=100 (see [`LineItem::valid`]).
pub struct LineItem {
    pub part_key: u64,
    pub quantity: u64,
    pub extended_price: u64,
    pub discount: u64,
    pub ship_mode: Vec<u8>,
    pub ship_instruct: Vec<u8>,
}

/// A dimension row: one part.
pub struct Part {
    pub part_key: u64,
    pub brand: Vec<u8>,
    pub container: Vec<u8>,
    pub size: u64,
}

/// The byte string "AIR".
pub open spec fn seq_air() -> Seq<u8> {
    seq![65u8, 73u8, 82u8]
}

/// The byte string "AIR REG".
pub open spec fn seq_air_reg() -> Seq<u8> {
    seq![65u8, 73u8, 82u8, 32u8, 82u8, 69u8, 71u8]
}

/// The byte string "DELIVER IN PERSON".
pub open spec fn seq_deliver_in_person() -> Seq<u8> {
    seq![
        68u8, 69u8, 76u8, 73u8, 86u8, 69u8, 82u8, 32u8, 73u8, 78u8, 32u8, 80u8, 69u8, 82u8, 83u8,
        79u8, 78u8,
    ]
}

/// The byte string "Brand#12".
pub open spec fn seq_brand12() -> Seq<u8> {
    seq![66u8, 114u8, 97u8, 110u8, 100u8, 35u8, 49u8, 50u8]
}

/// The byte string "Brand#23".
pub open spec fn seq_brand23() -> Seq<u8> {
    seq![66u8, 114u8, 97u8, 110u8, 100u8, 35u8, 50u8, 51u8]
}

/// The byte string "Brand#34".
pub open spec fn seq_brand34() -> Seq<u8> {
    seq![66u8, 114u8, 97u8, 110u8, 100u8, 35u8, 51u8, 52u8]
}

/// The byte string "SM CASE".
pub open spec fn seq_sm_case() -> Seq<u8> {
    seq![83u8, 77u8, 32u8, 67u8, 65u8, 83u8, 69u8]
}

/// The byte string "SM BOX".
pub open spec fn seq_sm_box() -> Seq<u8> {
    seq![83u8, 77u8, 32u8, 66u8, 79u8, 88u8]
}

/// The byte string "SM PACK".
pub open spec fn seq_sm_pack() -> Seq<u8> {
    seq![83u8, 77u8, 32u8, 80u8, 65u8, 67u8, 75u8]
}

/// The byte string "MED PKG".
pub open spec fn seq_med_pkg() -> Seq<u8> {
    seq![77u8, 69u8, 68u8, 32u8, 80u8, 75u8, 71u8]
}

/// The byte string "MED BAG".
pub open spec fn seq_med_bag() -> Seq<u8> {
    seq![77u8, 69u8, 68u8, 32u8, 66u8, 65u8, 71u8]
}

/// The byte string "MED BOX".
pub open spec fn seq_med_box() -> Seq<u8> {
    seq![77u8, 69u8, 68u8, 32u8, 66u8, 79u8, 88u8]
}

/// The byte string "MED PACK".
pub open spec fn seq_med_pack() -> Seq<u8> {
    seq![77u8, 69u8, 68u8, 32u8, 80u8, 65u8, 67u8, 75u8]
}

/// The byte string "LG CASE".
pub open spec fn seq_lg_case() -> Seq<u8> {
    seq![76u8, 71u8, 32u8, 67u8, 65u8, 83u8, 69u8]
}

/// The byte string "LG BOX".
pub open spec fn seq_lg_box() -> Seq<u8> {
    seq![76u8, 71u8, 32u8, 66u8, 79u8, 88u8]
}

/// The byte string "LG PACK".
pub open spec fn seq_lg_pack() -> Seq<u8> {
    seq![76u8, 71u8, 32u8, 80u8, 65u8, 67u8, 75u8]
}

/// The byte string "LG PCG".
pub open spec fn seq_lg_pcg() -> Seq<u8> {
    seq![76u8, 71u8, 32u8, 80u8, 67u8, 71u8]
}

/// The three predicate branches of the disjunctive query.  Each tier fixes a
/// quantity range for line items and a brand prefix, size bound and container
/// prefix family for parts; the brand prefixes make the tiers mutually
/// exclusive on the part side (see `laws::lemma_part_tiers_disjoint`).
#[derive(Clone, Copy, PartialEq, Eq, Structural, Debug)]
pub enum Tier {
    Tier1,
    Tier2,
    Tier3,
}

impl Tier {
    /// Lower bound of the tier's accepted quantity range.
    pub open spec fn quantity_lo(self) -> int {
        match self {
            Tier::Tier1 => 1,
            Tier::Tier2 => 10,
            Tier::Tier3 => 20,
        }
    }

    /// Upper bound of the tier's accepted quantity range: the lower bound
    /// plus ten, so neighbouring tiers share one boundary value.
    pub open spec fn quantity_hi(self) -> int {
        self.quantity_lo() + 10
    }

    /// Upper bound of the tier's accepted part size (the lower bound is 1).
    pub open spec fn size_bound(self) -> int {
        match self {
            Tier::Tier1 => 5,
            Tier::Tier2 => 10,
            Tier::Tier3 => 15,
        }
    }

    /// The brand prefix a part must carry to fall into this tier.
    pub open spec fn brand_prefix(self) -> Seq<u8> {
        match self {
            Tier::Tier1 => seq_brand12(),
            Tier::Tier2 => seq_brand23(),
            Tier::Tier3 => seq_brand34(),
        }
    }

    /// The container predicate of this tier: the container must start with
    /// one of four fixed prefixes.  The families are kept exactly as the
    /// query defines them: the first tier's fourth prefix is "MED PKG" (not
    /// "SM PKG"), and the third tier's is "LG PCG" (not "LG PKG").
    pub open spec fn container_ok(self, c: Seq<u8>) -> bool {
        match self {
            Tier::Tier1 => is_prefix_of(seq_sm_case(), c) || is_prefix_of(seq_sm_box(), c)
                || is_prefix_of(seq_sm_pack(), c) || is_prefix_of(seq_med_pkg(), c),
            Tier::Tier2 => is_prefix_of(seq_med_bag(), c) || is_prefix_of(seq_med_box(), c)
                || is_prefix_of(seq_med_pkg(), c) || is_prefix_of(seq_med_pack(), c),
            Tier::Tier3 => is_prefix_of(seq_lg_case(), c) || is_prefix_of(seq_lg_box(), c)
                || is_prefix_of(seq_lg_pack(), c) || is_prefix_of(seq_lg_pcg(), c),
        }
    }
}

/// The row passes the shipping predicate: `ship_mode` starts with "AIR" or
/// with "AIR REG" (the second disjunct is already implied by the first and is
/// kept faithfully), and `ship_instruct` starts with "DELIVER IN PERSON".
pub open spec fn lineitem_filter_spec(li: LineItem) -> bool {
    (is_prefix_of(seq_air(), li.ship_mode@) || is_prefix_of(seq_air_reg(), li.ship_mode@))
        && is_prefix_of(seq_deliver_in_person(), li.ship_instruct@)
}

/// The line item belongs to tier `t`: it passes the shipping predicate and
/// its quantity lies in the tier's range.
pub open spec fn lineitem_in_tier(li: LineItem, t: Tier) -> bool {
    lineitem_filter_spec(li) && t.quantity_lo() <= li.quantity <= t.quantity_hi()
}

/// The part belongs to tier `t`: its brand carries the tier's prefix, its
/// size lies in the tier's range, and its container carries one of the
/// tier's four prefixes.
pub open spec fn part_in_tier(p: Part, t: Tier) -> bool {
    is_prefix_of(t.brand_prefix(), p.brand@) && 1 <= p.size <= t.size_bound()
        && t.container_ok(p.container@)
}

impl LineItem {
    /// A well-formed row: the discount is a percentage, and the price is
    /// small enough that the revenue product fits the machine word.
    pub open spec fn valid(self) -> bool {
        self.discount <= 100 && self.extended_price * 100 <= u64::MAX
    }

    /// The revenue contribution of this row, as an unbounded integer:
    /// `extended_price * (100 - discount) / 100`, truncating.
    pub open spec fn revenue_int(self) -> int {
        self.extended_price * (100 - self.discount) / 100
    }

    /// The revenue contribution as a machine word (lossless for valid rows).
    pub open spec fn revenue_val(self) -> u64 {
        self.revenue_int() as u64
    }
}

/// For a valid row the revenue product and quotient stay within `u64`.
pub proof fn lemma_revenue_bounds(li: LineItem)
    requires
        li.valid(),
    ensures
        0 <= li.extended_price * (100 - li.discount) <= u64::MAX,
        0 <= li.revenue_int() <= u64::MAX,
        li.revenue_val() == li.revenue_int(),
{
    assert(li.extended_price * (100 - li.discount) <= li.extended_price * 100) by (nonlinear_arith)
        requires
            li.discount <= 100,
    ;
    assert(0 <= li.extended_price * (100 - li.discount)) by (nonlinear_arith)
        requires
            li.discount <= 100,
    ;
}

/// Computes the revenue contribution of a valid row.
pub fn revenue(li: &LineItem) -> (r: u64)
    requires
        li.valid(),
    ensures
        r == li.revenue_val(),
        r == li.revenue_int(),
{
    proof {
        lemma_revenue_bounds(*li);
    }
    li.extended_price * (100 - li.discount) / 100
}

/// Whether the line item passes the shipping predicate.
pub fn lineitem_passes_filter(li: &LineItem) -> (r: bool)
    ensures
        r == lineitem_filter_spec(*li),
{
    let air: [u8; 3] = [65u8, 73u8, 82u8];
    let air_reg: [u8; 7] = [65u8, 73u8, 82u8, 32u8, 82u8, 69u8, 71u8];
    let deliver: [u8; 17] = [
        68u8, 69u8, 76u8, 73u8, 86u8, 69u8, 82u8, 32u8, 73u8, 78u8, 32u8, 80u8, 69u8, 82u8, 83u8,
        79u8, 78u8,
    ];
    proof {
        assert(air@ =~= seq_air());
        assert(air_reg@ =~= seq_air_reg());
        assert(deliver@ =~= seq_deliver_in_person());
    }
    (starts_with(li.ship_mode.as_slice(), air.as_slice()) || starts_with(
        li.ship_mode.as_slice(),
        air_reg.as_slice(),
    )) && starts_with(li.ship_instruct.as_slice(), deliver.as_slice())
}

/// Whether the line item belongs to tier `t`.
pub fn lineitem_matches_tier(li: &LineItem, t: Tier) -> (r: bool)
    ensures
        r == lineitem_in_tier(*li, t),
{
    let q = li.quantity;
    let in_range = match t {
        Tier::Tier1 => 1 <= q && q <= 11,
        Tier::Tier2 => 10 <= q && q <= 20,
        Tier::Tier3 => 20 <= q && q <= 30,
    };
    in_range && lineitem_passes_filter(li)
}

/// Whether the part belongs to tier `t`.
pub fn part_matches_tier(p: &Part, t: Tier) -> (r: bool)
    ensures
        r == part_in_tier(*p, t),
{
    let size_ok = match t {
        Tier::Tier1 => 1 <= p.size && p.size <= 5,
        Tier::Tier2 => 1 <= p.size && p.size <= 10,
        Tier::Tier3 => 1 <= p.size && p.size <= 15,
    };
    if !size_ok {
        return false;
    }
    let brand_ok = match t {
        Tier::Tier1 => {
            let b: [u8; 8] = [66u8, 114u8, 97u8, 110u8, 100u8, 35u8, 49u8, 50u8];
            proof {
                assert(b@ =~= seq_brand12());
            }
            starts_with(p.brand.as_slice(), b.as_slice())
        },
        Tier::Tier2 => {
            let b: [u8; 8] = [66u8, 114u8, 97u8, 110u8, 100u8, 35u8, 50u8, 51u8];
            proof {
                assert(b@ =~= seq_brand23());
            }
            starts_with(p.brand.as_slice(), b.as_slice())
        },
        Tier::Tier3 => {
            let b: [u8; 8] = [66u8, 114u8, 97u8, 110u8, 100u8, 35u8, 51u8, 52u8];
            proof {
                assert(b@ =~= seq_brand34());
            }
            starts_with(p.brand.as_slice(), b.as_slice())
        },
    };
    if !brand_ok {
        return false;
    }
    match t {
        Tier::Tier1 => {
            let c1: [u8; 7] = [83u8, 77u8, 32u8, 67u8, 65u8, 83u8, 69u8];
            let c2: [u8; 6] = [83u8, 77u8, 32u8, 66u8, 79u8, 88u8];
            let c3: [u8; 7] = [83u8, 77u8, 32u8, 80u8, 65u8, 67u8, 75u8];
            let c4: [u8; 7] = [77u8, 69u8, 68u8, 32u8, 80u8, 75u8, 71u8];
            proof {
                assert(c1@ =~= seq_sm_case());
                assert(c2@ =~= seq_sm_box());
                assert(c3@ =~= seq_sm_pack());
                assert(c4@ =~= seq_med_pkg());
            }
            starts_with(p.container.as_slice(), c1.as_slice()) || starts_with(
                p.container.as_slice(),
                c2.as_slice(),
            ) || starts_with(p.container.as_slice(), c3.as_slice()) || starts_with(
                p.container.as_slice(),
                c4.as_slice(),
            )
        },
        Tier::Tier2 => {
            let c1: [u8; 7] = [77u8, 69u8, 68u8, 32u8, 66u8, 65u8, 71u8];
            let c2: [u8; 7] = [77u8, 69u8, 68u8, 32u8, 66u8, 79u8, 88u8];
            let c3: [u8; 7] = [77u8, 69u8, 68u8, 32u8, 80u8, 75u8, 71u8];
            let c4: [u8; 8] = [77u8, 69u8, 68u8, 32u8, 80u8, 65u8, 67u8, 75u8];
            proof {
                assert(c1@ =~= seq_med_bag());
                assert(c2@ =~= seq_med_box());
                assert(c3@ =~= seq_med_pkg());
                assert(c4@ =~= seq_med_pack());
            }
            starts_with(p.container.as_slice(), c1.as_slice()) || starts_with(
                p.container.as_slice(),
                c2.as_slice(),
            ) || starts_with(p.container.as_slice(), c3.as_slice()) || starts_with(
                p.container.as_slice(),
                c4.as_slice(),
            )
        },
        Tier::Tier3 => {
            let c1: [u8; 7] = [76u8, 71u8, 32u8, 67u8, 65u8, 83u8, 69u8];
            let c2: [u8; 6] = [76u8, 71u8, 32u8, 66u8, 79u8, 88u8];
            let c3: [u8; 7] = [76u8, 71u8, 32u8, 80u8, 65u8, 67u8, 75u8];
            let c4: [u8; 6] = [76u8, 71u8, 32u8, 80u8, 67u8, 71u8];
            proof {
                assert(c1@ =~= seq_lg_case());
                assert(c2@ =~= seq_lg_box());
                assert(c3@ =~= seq_lg_pack());
                assert(c4@ =~= seq_lg_pcg());
            }
            starts_with(p.container.as_slice(), c1.as_slice()) || starts_with(
                p.container.as_slice(),
                c2.as_slice(),
            ) || starts_with(p.container.as_slice(), c3.as_slice()) || starts_with(
                p.container.as_slice(),
                c4.as_slice(),
            )
        },
    }
}

} // verus!
