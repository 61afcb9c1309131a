//! The query's evaluation state and its incremental updates.
//!
//! [`QueryState`] keeps, per tier, a keyed index of filtered line items and a
//! keyed index of filtered part keys, together with the multiset of
//! (part key, revenue) matches their semijoin produces.  One update of either
//! relation adjusts the indexes and the match multiset by exactly the
//! semijoin's delta; the invariant [`QueryState::wf`] states that the stored
//! match multiset always equals the one derived from the indexes.

use vstd::prelude::*;
use crate::index::KeyEntry;
use crate::index::LineEntry;
use crate::index::bump_key;
use crate::index::bump_line;
use crate::index::checked_present_revenue_sum;
use crate::index::fits_i64;
use crate::index::key_entries_unique;
use crate::index::key_weight;
use crate::index::lemma_line_weight_fits;
use crate::index::lemma_line_weight_nonzero_exists;
use crate::index::lemma_line_weight_unique_at;
use crate::index::line_contrib;
use crate::index::line_entries_unique;
use crate::index::line_weight;
use crate::index::lookup_key;
use crate::index::lookup_line;
use crate::index::present_revenue_sum;
use crate::laws::lemma_part_tiers_disjoint;
use crate::rows::LineItem;
use crate::rows::Part;
use crate::rows::Tier;
use crate::rows::lineitem_in_tier;
use crate::rows::lineitem_matches_tier;
use crate::rows::lineitem_passes_filter;
use crate::rows::part_in_tier;
use crate::rows::part_matches_tier;
use crate::rows::revenue;

verus! {

/// One tier's key matcher state: the tier's filtered line items, keyed by
/// (part key, revenue), and the tier's filtered part keys.
pub struct TierIndex {
    pub lines: Vec<LineEntry>,
    pub parts: Vec<KeyEntry>,
}

/// The whole evaluation state: three tier indexes, the match multiset they
/// derive, and the progress watermark.
pub struct QueryState {
    pub tier1: TierIndex,
    pub tier2: TierIndex,
    pub tier3: TierIndex,
    pub matches: Vec<LineEntry>,
    pub frontier: u64,
}

impl QueryState {
    /// The index of tier `t`.
    pub open spec fn tier_index(self, t: Tier) -> TierIndex {
        match t {
            Tier::Tier1 => self.tier1,
            Tier::Tier2 => self.tier2,
            Tier::Tier3 => self.tier3,
        }
    }

    /// Net multiplicity of the pair (`k`, `r`) in tier `t`'s line index.
    pub open spec fn line_mult(self, t: Tier, k: u64, r: u64) -> int {
        line_weight(self.tier_index(t).lines@, k, r)
    }

    /// Net multiplicity of the key `k` in tier `t`'s part index.
    pub open spec fn part_mult(self, t: Tier, k: u64) -> int {
        key_weight(self.tier_index(t).parts@, k)
    }

    /// Net multiplicity of the match (`k`, `r`) in the stored multiset.
    pub open spec fn match_mult(self, k: u64, r: u64) -> int {
        line_weight(self.matches@, k, r)
    }

    /// The match multiplicity the indexes derive: per tier, the product of
    /// the two sides' multiplicities, summed over the tiers.
    pub open spec fn derived_match_mult(self, k: u64, r: u64) -> int {
        self.line_mult(Tier::Tier1, k, r) * self.part_mult(Tier::Tier1, k) + self.line_mult(
            Tier::Tier2,
            k,
            r,
        ) * self.part_mult(Tier::Tier2, k) + self.line_mult(Tier::Tier3, k, r) * self.part_mult(
            Tier::Tier3,
            k,
        )
    }

    /// A match is present when its net multiplicity is positive; only then
    /// does it contribute to the result, and it contributes exactly once.
    pub open spec fn present(self, k: u64, r: u64) -> bool {
        self.match_mult(k, r) > 0
    }

    /// The current result: the deduplicated sum of the revenues of all
    /// present matches.
    pub open spec fn result_spec(self) -> int {
        present_revenue_sum(self.matches@)
    }

    /// Well-formedness: every index names a key at most once, and the stored
    /// match multiset is exactly the one the indexes derive.
    pub open spec fn wf(self) -> bool {
        &&& line_entries_unique(self.tier1.lines@)
        &&& line_entries_unique(self.tier2.lines@)
        &&& line_entries_unique(self.tier3.lines@)
        &&& key_entries_unique(self.tier1.parts@)
        &&& key_entries_unique(self.tier2.parts@)
        &&& key_entries_unique(self.tier3.parts@)
        &&& line_entries_unique(self.matches@)
        &&& forall|k: u64, r: u64| #[trigger] self.match_mult(k, r) == self.derived_match_mult(k, r)
    }
}

/// What one line-item update adds to tier `t`'s line index at (`k`, `r`).
pub open spec fn line_entry_delta(li: LineItem, d: int, t: Tier, k: u64, r: u64) -> int {
    if lineitem_in_tier(li, t) && k == li.part_key && r == li.revenue_val() {
        d
    } else {
        0
    }
}

/// What one line-item update adds to the match multiplicity of the row's own
/// (part key, revenue) pair: per matching tier, the update's weight times the
/// tier's current part-side multiplicity.
pub open spec fn line_step_delta(pre: QueryState, li: LineItem, d: int) -> int {
    (if lineitem_in_tier(li, Tier::Tier1) {
        d * pre.part_mult(Tier::Tier1, li.part_key)
    } else {
        0
    }) + (if lineitem_in_tier(li, Tier::Tier2) {
        d * pre.part_mult(Tier::Tier2, li.part_key)
    } else {
        0
    }) + (if lineitem_in_tier(li, Tier::Tier3) {
        d * pre.part_mult(Tier::Tier3, li.part_key)
    } else {
        0
    })
}

/// What one part update adds to the match multiplicity of (`p.part_key`,
/// `r`): per matching tier, the tier's current line-side multiplicity of that
/// pair times the update's weight.
pub open spec fn part_step_delta(pre: QueryState, p: Part, r: u64, d: int) -> int {
    (if part_in_tier(p, Tier::Tier1) {
        pre.line_mult(Tier::Tier1, p.part_key, r) * d
    } else {
        0
    }) + (if part_in_tier(p, Tier::Tier2) {
        pre.line_mult(Tier::Tier2, p.part_key, r) * d
    } else {
        0
    }) + (if part_in_tier(p, Tier::Tier3) {
        pre.line_mult(Tier::Tier3, p.part_key, r) * d
    } else {
        0
    })
}

/// How one line-item update with weight `d` changes the state: the part
/// indexes stay, the matching tiers' line indexes gain `d` at the row's pair,
/// and the row's match multiplicity moves by the semijoin delta.
pub open spec fn lineitem_step(pre: QueryState, post: QueryState, li: LineItem, d: int) -> bool {
    &&& post.frontier == pre.frontier
    &&& forall|t: Tier, k: u64| #[trigger] post.part_mult(t, k) == pre.part_mult(t, k)
    &&& forall|t: Tier, k: u64, r: u64| #[trigger]
        post.line_mult(t, k, r) == pre.line_mult(t, k, r) + line_entry_delta(li, d, t, k, r)
    &&& forall|k: u64, r: u64| #[trigger]
        post.match_mult(k, r) == pre.match_mult(k, r) + (if k == li.part_key && r
            == li.revenue_val() {
            line_step_delta(pre, li, d)
        } else {
            0
        })
}

/// How one part update with weight `d` changes the state: the line indexes
/// stay, the matching tier's part index gains `d` at the part's key, and the
/// match multiplicities at that key move by the semijoin delta.
pub open spec fn part_step(pre: QueryState, post: QueryState, p: Part, d: int) -> bool {
    &&& post.frontier == pre.frontier
    &&& forall|t: Tier, k: u64, r: u64| #[trigger]
        post.line_mult(t, k, r) == pre.line_mult(t, k, r)
    &&& forall|t: Tier, k: u64| #[trigger]
        post.part_mult(t, k) == pre.part_mult(t, k) + (if part_in_tier(p, t) && k == p.part_key {
            d
        } else {
            0
        })
    &&& forall|k: u64, r: u64| #[trigger]
        post.match_mult(k, r) == pre.match_mult(k, r) + (if k == p.part_key {
            part_step_delta(pre, p, r, d)
        } else {
            0
        })
}

impl QueryState {
    /// A fresh state: empty indexes, no matches, result zero, watermark zero.
    pub fn new() -> (s: QueryState)
        ensures
            s.wf(),
            s.frontier == 0,
            forall|t: Tier, k: u64, r: u64| #[trigger] s.line_mult(t, k, r) == 0,
            forall|t: Tier, k: u64| #[trigger] s.part_mult(t, k) == 0,
            forall|k: u64, r: u64| #[trigger] s.match_mult(k, r) == 0,
            s.result_spec() == 0,
    {
        let s = QueryState {
            tier1: TierIndex { lines: Vec::new(), parts: Vec::new() },
            tier2: TierIndex { lines: Vec::new(), parts: Vec::new() },
            tier3: TierIndex { lines: Vec::new(), parts: Vec::new() },
            matches: Vec::new(),
            frontier: 0,
        };
        s
    }

    /// Applies one line-item update of signed weight `d` (an insertion for
    /// positive `d`, a retraction for negative `d`) carrying timestamp `ts`,
    /// which the engine guarantees has not passed the watermark yet.
    pub fn update_lineitem(&mut self, li: &LineItem, ts: u64, d: i64)
        requires
            old(self).wf(),
            li.valid(),
            ts >= old(self).frontier,
            lineitem_in_tier(*li, Tier::Tier1) ==> fits_i64(
                old(self).line_mult(Tier::Tier1, li.part_key, li.revenue_val()) + d,
            ),
            lineitem_in_tier(*li, Tier::Tier2) ==> fits_i64(
                old(self).line_mult(Tier::Tier2, li.part_key, li.revenue_val()) + d,
            ),
            lineitem_in_tier(*li, Tier::Tier3) ==> fits_i64(
                old(self).line_mult(Tier::Tier3, li.part_key, li.revenue_val()) + d,
            ),
            fits_i64(line_step_delta(*old(self), *li, d as int)),
            fits_i64(
                old(self).match_mult(li.part_key, li.revenue_val()) + line_step_delta(
                    *old(self),
                    *li,
                    d as int,
                ),
            ),
        ensures
            final(self).wf(),
            lineitem_step(*old(self), *final(self), *li, d as int),
    {
        let ghost pre = *self;
        if !lineitem_passes_filter(li) {
            proof {
                assert(forall|t: Tier, k: u64, r: u64|
                    line_entry_delta(*li, d as int, t, k, r) == 0);
                assert(line_step_delta(pre, *li, d as int) == 0);
            }
            return ;
        }
        let key = li.part_key;
        let rev = revenue(li);
        let p1 = lookup_key(&self.tier1.parts, key);
        let p2 = lookup_key(&self.tier2.parts, key);
        let p3 = lookup_key(&self.tier3.parts, key);
        let m1 = lineitem_matches_tier(li, Tier::Tier1);
        let m2 = lineitem_matches_tier(li, Tier::Tier2);
        let m3 = lineitem_matches_tier(li, Tier::Tier3);
        let mut delta: i128 = 0;
        if m1 {
            proof {
                lemma_i64_product_fits_i128(d as int, p1 as int);
            }
            bump_line(&mut self.tier1.lines, key, rev, d as i128);
            delta = (d as i128) * (p1 as i128);
        }
        proof {
            assert(delta as int == (if lineitem_in_tier(*li, Tier::Tier1) {
                (d as int) * pre.part_mult(Tier::Tier1, key)
            } else {
                0
            }));
        }
        if m2 {
            proof {
                lemma_i64_product_fits_i128(d as int, p2 as int);
                if m1 {
                    assert(!m3);
                    assert(delta as int + (d as int) * (p2 as int) == line_step_delta(
                        pre,
                        *li,
                        d as int,
                    ));
                }
            }
            bump_line(&mut self.tier2.lines, key, rev, d as i128);
            delta = delta + (d as i128) * (p2 as i128);
        }
        if m3 {
            proof {
                lemma_i64_product_fits_i128(d as int, p3 as int);
                assert(!m1);
                if m2 {
                    assert(delta as int + (d as int) * (p3 as int) == line_step_delta(
                        pre,
                        *li,
                        d as int,
                    ));
                }
            }
            bump_line(&mut self.tier3.lines, key, rev, d as i128);
            delta = delta + (d as i128) * (p3 as i128);
        }
        proof {
            assert(delta as int == line_step_delta(pre, *li, d as int));
        }
        bump_line(&mut self.matches, key, rev, delta);
        proof {
            assert forall|t: Tier, k: u64| #[trigger]
                self.part_mult(t, k) == pre.part_mult(t, k) by {
                assert(self.tier1.parts == pre.tier1.parts);
                assert(self.tier2.parts == pre.tier2.parts);
                assert(self.tier3.parts == pre.tier3.parts);
            }
            assert forall|t: Tier, k: u64, r: u64| #[trigger]
                self.line_mult(t, k, r) == pre.line_mult(t, k, r) + line_entry_delta(
                    *li,
                    d as int,
                    t,
                    k,
                    r,
                ) by {
                if m1 {
                    assert(line_weight(self.tier1.lines@, k, r) == line_weight(
                        pre.tier1.lines@,
                        k,
                        r,
                    ) + (if k == key && r == rev {
                        d as int
                    } else {
                        0
                    }));
                } else {
                    assert(self.tier1.lines == pre.tier1.lines);
                }
                if m2 {
                    assert(line_weight(self.tier2.lines@, k, r) == line_weight(
                        pre.tier2.lines@,
                        k,
                        r,
                    ) + (if k == key && r == rev {
                        d as int
                    } else {
                        0
                    }));
                } else {
                    assert(self.tier2.lines == pre.tier2.lines);
                }
                if m3 {
                    assert(line_weight(self.tier3.lines@, k, r) == line_weight(
                        pre.tier3.lines@,
                        k,
                        r,
                    ) + (if k == key && r == rev {
                        d as int
                    } else {
                        0
                    }));
                } else {
                    assert(self.tier3.lines == pre.tier3.lines);
                }
            }
            assert forall|k: u64, r: u64| #[trigger]
                self.match_mult(k, r) == pre.match_mult(k, r) + (if k == li.part_key && r
                    == li.revenue_val() {
                    line_step_delta(pre, *li, d as int)
                } else {
                    0
                }) by {
                assert(line_weight(self.matches@, k, r) == line_weight(pre.matches@, k, r) + (if k
                    == key && r == rev {
                    delta as int
                } else {
                    0
                }));
            }
            assert forall|k: u64, r: u64| #[trigger]
                self.match_mult(k, r) == self.derived_match_mult(k, r) by {
                assert(pre.match_mult(k, r) == pre.derived_match_mult(k, r));
                let l1 = pre.line_mult(Tier::Tier1, k, r);
                let l2 = pre.line_mult(Tier::Tier2, k, r);
                let l3 = pre.line_mult(Tier::Tier3, k, r);
                let q1 = pre.part_mult(Tier::Tier1, k);
                let q2 = pre.part_mult(Tier::Tier2, k);
                let q3 = pre.part_mult(Tier::Tier3, k);
                let e1 = line_entry_delta(*li, d as int, Tier::Tier1, k, r);
                let e2 = line_entry_delta(*li, d as int, Tier::Tier2, k, r);
                let e3 = line_entry_delta(*li, d as int, Tier::Tier3, k, r);
                assert(self.line_mult(Tier::Tier1, k, r) == l1 + e1);
                assert(self.line_mult(Tier::Tier2, k, r) == l2 + e2);
                assert(self.line_mult(Tier::Tier3, k, r) == l3 + e3);
                assert(self.part_mult(Tier::Tier1, k) == q1);
                assert(self.part_mult(Tier::Tier2, k) == q2);
                assert(self.part_mult(Tier::Tier3, k) == q3);
                assert((l1 + e1) * q1 == l1 * q1 + e1 * q1) by (nonlinear_arith);
                assert((l2 + e2) * q2 == l2 * q2 + e2 * q2) by (nonlinear_arith);
                assert((l3 + e3) * q3 == l3 * q3 + e3 * q3) by (nonlinear_arith);
            }
        }
    }

    /// Applies one part update of signed weight `d` carrying timestamp `ts`.
    /// At most one tier can accept the part (the brand prefixes are mutually
    /// exclusive); that tier's part index moves by `d` at the part's key, and
    /// every match at that key moves by the tier's line multiplicity times
    /// `d`.
    pub fn update_part(&mut self, p: &Part, ts: u64, d: i64)
        requires
            old(self).wf(),
            ts >= old(self).frontier,
            part_in_tier(*p, Tier::Tier1) ==> fits_i64(
                old(self).part_mult(Tier::Tier1, p.part_key) + d,
            ),
            part_in_tier(*p, Tier::Tier2) ==> fits_i64(
                old(self).part_mult(Tier::Tier2, p.part_key) + d,
            ),
            part_in_tier(*p, Tier::Tier3) ==> fits_i64(
                old(self).part_mult(Tier::Tier3, p.part_key) + d,
            ),
            forall|r: u64|
                fits_i64(
                    (#[trigger] old(self).match_mult(p.part_key, r)) + part_step_delta(
                        *old(self),
                        *p,
                        r,
                        d as int,
                    ),
                ),
        ensures
            final(self).wf(),
            part_step(*old(self), *final(self), *p, d as int),
    {
        let ghost pre = *self;
        let key = p.part_key;
        let m1 = part_matches_tier(p, Tier::Tier1);
        let m2 = part_matches_tier(p, Tier::Tier2);
        let m3 = part_matches_tier(p, Tier::Tier3);
        proof {
            if m1 && m2 {
                lemma_part_tiers_disjoint(*p, Tier::Tier1, Tier::Tier2);
            }
            if m1 && m3 {
                lemma_part_tiers_disjoint(*p, Tier::Tier1, Tier::Tier3);
            }
            if m2 && m3 {
                lemma_part_tiers_disjoint(*p, Tier::Tier2, Tier::Tier3);
            }
        }
        if m1 {
            proof {
                assert forall|r: u64|
                    fits_i64(
                        (#[trigger] line_weight(pre.matches@, key, r)) + line_weight(
                            pre.tier1.lines@,
                            key,
                            r,
                        ) * (d as int),
                    ) by {
                    assert(fits_i64(pre.match_mult(key, r) + part_step_delta(pre, *p, r, d as int)));
                    assert(part_step_delta(pre, *p, r, d as int) == pre.line_mult(
                        Tier::Tier1,
                        key,
                        r,
                    ) * (d as int));
                }
            }
            apply_part_tier(&mut self.tier1, &mut self.matches, key, d);
            proof {
                self.lemma_part_update_post(pre, *p, d, Tier::Tier1);
            }
        } else if m2 {
            proof {
                assert forall|r: u64|
                    fits_i64(
                        (#[trigger] line_weight(pre.matches@, key, r)) + line_weight(
                            pre.tier2.lines@,
                            key,
                            r,
                        ) * (d as int),
                    ) by {
                    assert(fits_i64(pre.match_mult(key, r) + part_step_delta(pre, *p, r, d as int)));
                    assert(part_step_delta(pre, *p, r, d as int) == pre.line_mult(
                        Tier::Tier2,
                        key,
                        r,
                    ) * (d as int));
                }
            }
            apply_part_tier(&mut self.tier2, &mut self.matches, key, d);
            proof {
                self.lemma_part_update_post(pre, *p, d, Tier::Tier2);
            }
        } else if m3 {
            proof {
                assert forall|r: u64|
                    fits_i64(
                        (#[trigger] line_weight(pre.matches@, key, r)) + line_weight(
                            pre.tier3.lines@,
                            key,
                            r,
                        ) * (d as int),
                    ) by {
                    assert(fits_i64(pre.match_mult(key, r) + part_step_delta(pre, *p, r, d as int)));
                    assert(part_step_delta(pre, *p, r, d as int) == pre.line_mult(
                        Tier::Tier3,
                        key,
                        r,
                    ) * (d as int));
                }
            }
            apply_part_tier(&mut self.tier3, &mut self.matches, key, d);
            proof {
                self.lemma_part_update_post(pre, *p, d, Tier::Tier3);
            }
        } else {
            proof {
                assert(forall|r: u64| part_step_delta(pre, *p, r, d as int) == 0);
            }
        }
    }

    /// After one tier's part index and the matches moved by a part update,
    /// the state is well formed again and satisfies the part step relation.
    proof fn lemma_part_update_post(self, pre: QueryState, p: Part, d: i64, t0: Tier)
        requires
            pre.wf(),
            part_in_tier(p, t0),
            forall|t: Tier| t != t0 ==> !#[trigger] part_in_tier(p, t),
            self.frontier == pre.frontier,
            self.tier1.lines == pre.tier1.lines,
            self.tier2.lines == pre.tier2.lines,
            self.tier3.lines == pre.tier3.lines,
            forall|t: Tier| t != t0 ==> #[trigger] self.tier_index(t).parts == pre.tier_index(
                t,
            ).parts,
            key_entries_unique(self.tier_index(t0).parts@),
            line_entries_unique(self.matches@),
            forall|k: u64|
                key_weight(self.tier_index(t0).parts@, k) == key_weight(
                    pre.tier_index(t0).parts@,
                    k,
                ) + (if k == p.part_key {
                    d as int
                } else {
                    0
                }),
            forall|k: u64, r: u64|
                line_weight(self.matches@, k, r) == line_weight(pre.matches@, k, r) + (if k
                    == p.part_key {
                    line_weight(pre.tier_index(t0).lines@, k, r) * (d as int)
                } else {
                    0
                }),
        ensures
            self.wf(),
            part_step(pre, self, p, d as int),
    {
        if t0 != Tier::Tier1 {
            assert(self.tier_index(Tier::Tier1).parts == pre.tier_index(Tier::Tier1).parts);
        }
        if t0 != Tier::Tier2 {
            assert(self.tier_index(Tier::Tier2).parts == pre.tier_index(Tier::Tier2).parts);
        }
        if t0 != Tier::Tier3 {
            assert(self.tier_index(Tier::Tier3).parts == pre.tier_index(Tier::Tier3).parts);
        }
        assert(key_entries_unique(self.tier1.parts@));
        assert(key_entries_unique(self.tier2.parts@));
        assert(key_entries_unique(self.tier3.parts@));
        assert forall|t: Tier, k: u64, r: u64| #[trigger]
            self.line_mult(t, k, r) == pre.line_mult(t, k, r) by {
            assert(self.tier_index(t).lines == pre.tier_index(t).lines);
        }
        assert forall|t: Tier, k: u64| #[trigger]
            self.part_mult(t, k) == pre.part_mult(t, k) + (if part_in_tier(p, t) && k
                == p.part_key {
                d as int
            } else {
                0
            }) by {
            if t == t0 {
                assert(key_weight(self.tier_index(t0).parts@, k) == key_weight(
                    pre.tier_index(t0).parts@,
                    k,
                ) + (if k == p.part_key {
                    d as int
                } else {
                    0
                }));
            } else {
                assert(self.tier_index(t).parts == pre.tier_index(t).parts);
                assert(!part_in_tier(p, t));
            }
        }
        assert forall|k: u64, r: u64| #[trigger]
            self.match_mult(k, r) == pre.match_mult(k, r) + (if k == p.part_key {
                part_step_delta(pre, p, r, d as int)
            } else {
                0
            }) by {
            assert(line_weight(self.matches@, k, r) == line_weight(pre.matches@, k, r) + (if k
                == p.part_key {
                line_weight(pre.tier_index(t0).lines@, k, r) * (d as int)
            } else {
                0
            }));
            if t0 != Tier::Tier1 {
                assert(!part_in_tier(p, Tier::Tier1));
            }
            if t0 != Tier::Tier2 {
                assert(!part_in_tier(p, Tier::Tier2));
            }
            if t0 != Tier::Tier3 {
                assert(!part_in_tier(p, Tier::Tier3));
            }
        }
        assert forall|k: u64, r: u64| #[trigger]
            self.match_mult(k, r) == self.derived_match_mult(k, r) by {
            assert(pre.match_mult(k, r) == pre.derived_match_mult(k, r));
            let l1 = pre.line_mult(Tier::Tier1, k, r);
            let l2 = pre.line_mult(Tier::Tier2, k, r);
            let l3 = pre.line_mult(Tier::Tier3, k, r);
            let q1 = pre.part_mult(Tier::Tier1, k);
            let q2 = pre.part_mult(Tier::Tier2, k);
            let q3 = pre.part_mult(Tier::Tier3, k);
            let e1: int = if part_in_tier(p, Tier::Tier1) && k == p.part_key {
                d as int
            } else {
                0
            };
            let e2: int = if part_in_tier(p, Tier::Tier2) && k == p.part_key {
                d as int
            } else {
                0
            };
            let e3: int = if part_in_tier(p, Tier::Tier3) && k == p.part_key {
                d as int
            } else {
                0
            };
            assert(self.line_mult(Tier::Tier1, k, r) == l1);
            assert(self.line_mult(Tier::Tier2, k, r) == l2);
            assert(self.line_mult(Tier::Tier3, k, r) == l3);
            assert(self.part_mult(Tier::Tier1, k) == q1 + e1);
            assert(self.part_mult(Tier::Tier2, k) == q2 + e2);
            assert(self.part_mult(Tier::Tier3, k) == q3 + e3);
            assert(l1 * (q1 + e1) == l1 * q1 + l1 * e1) by (nonlinear_arith);
            assert(l2 * (q2 + e2) == l2 * q2 + l2 * e2) by (nonlinear_arith);
            assert(l3 * (q3 + e3) == l3 * q3 + l3 * e3) by (nonlinear_arith);
            if t0 != Tier::Tier1 {
                assert(!part_in_tier(p, Tier::Tier1));
            }
            if t0 != Tier::Tier2 {
                assert(!part_in_tier(p, Tier::Tier2));
            }
            if t0 != Tier::Tier3 {
                assert(!part_in_tier(p, Tier::Tier3));
            }
        }
    }

    /// Applies one line-item update after checking every precondition of
    /// [`QueryState::update_lineitem`]; a rejected update leaves the state
    /// untouched.
    pub fn try_update_lineitem(&mut self, li: &LineItem, ts: u64, d: i64) -> (ok: bool)
        requires
            old(self).wf(),
        ensures
            final(self).wf(),
            ok == lineitem_update_ok(*old(self), *li, ts, d as int),
            ok ==> lineitem_step(*old(self), *final(self), *li, d as int),
            !ok ==> *final(self) == *old(self),
    {
        let ghost pre = *self;
        if li.discount > 100 {
            return false;
        }
        if li.extended_price > u64::MAX / 100 {
            return false;
        }
        if ts < self.frontier {
            return false;
        }
        let key = li.part_key;
        let rev = revenue(li);
        let m1 = lineitem_matches_tier(li, Tier::Tier1);
        let m2 = lineitem_matches_tier(li, Tier::Tier2);
        let m3 = lineitem_matches_tier(li, Tier::Tier3);
        let mut delta: i128 = 0;
        if m1 {
            let lm = self.line_multiplicity(Tier::Tier1, key, rev);
            let w: i128 = lm as i128 + d as i128;
            if w < i64::MIN as i128 || w > i64::MAX as i128 {
                return false;
            }
            let q = self.part_multiplicity(Tier::Tier1, key);
            proof {
                lemma_i64_product_fits_i128(d as int, q as int);
            }
            let prod: i128 = (d as i128) * (q as i128);
            if prod < i64::MIN as i128 || prod > i64::MAX as i128 {
                return false;
            }
            delta = prod;
        }
        if m2 {
            let lm = self.line_multiplicity(Tier::Tier2, key, rev);
            let w: i128 = lm as i128 + d as i128;
            if w < i64::MIN as i128 || w > i64::MAX as i128 {
                return false;
            }
            let q = self.part_multiplicity(Tier::Tier2, key);
            proof {
                lemma_i64_product_fits_i128(d as int, q as int);
            }
            let prod: i128 = (d as i128) * (q as i128);
            if prod < i64::MIN as i128 || prod > i64::MAX as i128 {
                return false;
            }
            delta = delta + prod;
        }
        if m3 {
            let lm = self.line_multiplicity(Tier::Tier3, key, rev);
            let w: i128 = lm as i128 + d as i128;
            if w < i64::MIN as i128 || w > i64::MAX as i128 {
                return false;
            }
            let q = self.part_multiplicity(Tier::Tier3, key);
            proof {
                lemma_i64_product_fits_i128(d as int, q as int);
            }
            let prod: i128 = (d as i128) * (q as i128);
            if prod < i64::MIN as i128 || prod > i64::MAX as i128 {
                return false;
            }
            delta = delta + prod;
        }
        proof {
            assert(delta as int == line_step_delta(pre, *li, d as int));
        }
        if delta < i64::MIN as i128 || delta > i64::MAX as i128 {
            return false;
        }
        let mm = self.match_multiplicity(key, rev);
        let tot: i128 = mm as i128 + delta;
        if tot < i64::MIN as i128 || tot > i64::MAX as i128 {
            return false;
        }
        self.update_lineitem(li, ts, d);
        true
    }

    /// Applies one part update after checking every precondition of
    /// [`QueryState::update_part`]; a rejected update leaves the state
    /// untouched.
    pub fn try_update_part(&mut self, p: &Part, ts: u64, d: i64) -> (ok: bool)
        requires
            old(self).wf(),
        ensures
            final(self).wf(),
            ok == part_update_ok(*old(self), *p, ts, d as int),
            ok ==> part_step(*old(self), *final(self), *p, d as int),
            !ok ==> *final(self) == *old(self),
    {
        let ghost pre = *self;
        if ts < self.frontier {
            return false;
        }
        let key = p.part_key;
        let m1 = part_matches_tier(p, Tier::Tier1);
        let m2 = part_matches_tier(p, Tier::Tier2);
        let m3 = part_matches_tier(p, Tier::Tier3);
        proof {
            if m1 && m2 {
                lemma_part_tiers_disjoint(*p, Tier::Tier1, Tier::Tier2);
            }
            if m1 && m3 {
                lemma_part_tiers_disjoint(*p, Tier::Tier1, Tier::Tier3);
            }
            if m2 && m3 {
                lemma_part_tiers_disjoint(*p, Tier::Tier2, Tier::Tier3);
            }
            lemma_line_weight_fits(pre.matches@);
        }
        if m1 {
            let q = self.part_multiplicity(Tier::Tier1, key);
            let w: i128 = q as i128 + d as i128;
            if w < i64::MIN as i128 || w > i64::MAX as i128 {
                return false;
            }
            let ok = part_sweep_fits(&self.tier1.lines, &self.matches, key, d);
            proof {
                assert forall|r: u64| part_step_delta(pre, *p, r, d as int) == line_weight(
                    pre.tier1.lines@,
                    key,
                    r,
                ) * (d as int) by {
                    assert(pre.line_mult(Tier::Tier1, key, r) == line_weight(
                        pre.tier1.lines@,
                        key,
                        r,
                    ));
                }
            }
            if !ok {
                proof {
                    let r0 = choose|r: u64|
                        !fits_i64(
                            line_weight(pre.matches@, key, r) + line_weight(
                                pre.tier1.lines@,
                                key,
                                r,
                            ) * (d as int),
                        );
                    assert(!fits_i64(
                        pre.match_mult(key, r0) + part_step_delta(pre, *p, r0, d as int),
                    ));
                }
                return false;
            }
            self.update_part(p, ts, d);
            true
        } else if m2 {
            let q = self.part_multiplicity(Tier::Tier2, key);
            let w: i128 = q as i128 + d as i128;
            if w < i64::MIN as i128 || w > i64::MAX as i128 {
                return false;
            }
            let ok = part_sweep_fits(&self.tier2.lines, &self.matches, key, d);
            proof {
                assert forall|r: u64| part_step_delta(pre, *p, r, d as int) == line_weight(
                    pre.tier2.lines@,
                    key,
                    r,
                ) * (d as int) by {
                    assert(pre.line_mult(Tier::Tier2, key, r) == line_weight(
                        pre.tier2.lines@,
                        key,
                        r,
                    ));
                }
            }
            if !ok {
                proof {
                    let r0 = choose|r: u64|
                        !fits_i64(
                            line_weight(pre.matches@, key, r) + line_weight(
                                pre.tier2.lines@,
                                key,
                                r,
                            ) * (d as int),
                        );
                    assert(!fits_i64(
                        pre.match_mult(key, r0) + part_step_delta(pre, *p, r0, d as int),
                    ));
                }
                return false;
            }
            self.update_part(p, ts, d);
            true
        } else if m3 {
            let q = self.part_multiplicity(Tier::Tier3, key);
            let w: i128 = q as i128 + d as i128;
            if w < i64::MIN as i128 || w > i64::MAX as i128 {
                return false;
            }
            let ok = part_sweep_fits(&self.tier3.lines, &self.matches, key, d);
            proof {
                assert forall|r: u64| part_step_delta(pre, *p, r, d as int) == line_weight(
                    pre.tier3.lines@,
                    key,
                    r,
                ) * (d as int) by {
                    assert(pre.line_mult(Tier::Tier3, key, r) == line_weight(
                        pre.tier3.lines@,
                        key,
                        r,
                    ));
                }
            }
            if !ok {
                proof {
                    let r0 = choose|r: u64|
                        !fits_i64(
                            line_weight(pre.matches@, key, r) + line_weight(
                                pre.tier3.lines@,
                                key,
                                r,
                            ) * (d as int),
                        );
                    assert(!fits_i64(
                        pre.match_mult(key, r0) + part_step_delta(pre, *p, r0, d as int),
                    ));
                }
                return false;
            }
            self.update_part(p, ts, d);
            true
        } else {
            proof {
                assert(forall|r: u64| part_step_delta(pre, *p, r, d as int) == 0);
            }
            self.update_part(p, ts, d);
            true
        }
    }

    /// Advances the progress watermark; the indexes and matches stay.
    pub fn advance_frontier(&mut self, ts: u64)
        requires
            old(self).wf(),
            ts >= old(self).frontier,
        ensures
            final(self).wf(),
            final(self).frontier == ts,
            final(self).tier1 == old(self).tier1,
            final(self).tier2 == old(self).tier2,
            final(self).tier3 == old(self).tier3,
            final(self).matches == old(self).matches,
    {
        let ghost pre = *self;
        self.frontier = ts;
        proof {
            assert forall|k: u64, r: u64| #[trigger]
                self.match_mult(k, r) == self.derived_match_mult(k, r) by {
                assert(pre.match_mult(k, r) == pre.derived_match_mult(k, r));
            }
        }
    }

    /// The current result, when its mathematical value fits the machine
    /// word; `None` reports an overflowing total instead of computing one.
    pub fn checked_result(&self) -> (r: Option<u64>)
        ensures
            match r {
                Some(v) => v as int == self.result_spec() && self.result_spec() <= u64::MAX,
                None => self.result_spec() > u64::MAX,
            },
    {
        checked_present_revenue_sum(&self.matches)
    }

    /// The current result: the deduplicated sum of present matches'
    /// revenues.
    pub fn result(&self) -> (r: u64)
        requires
            self.result_spec() <= u64::MAX,
        ensures
            r as int == self.result_spec(),
    {
        match self.checked_result() {
            Some(v) => v,
            None => {
                proof {
                    assert(false);
                }
                0
            },
        }
    }

    /// Reads the net multiplicity of the match (`key`, `revenue`).
    pub fn match_multiplicity(&self, key: u64, revenue: u64) -> (m: i64)
        requires
            self.wf(),
        ensures
            m as int == self.match_mult(key, revenue),
    {
        lookup_line(&self.matches, key, revenue)
    }

    /// Whether the match (`key`, `revenue`) is currently present.
    pub fn is_present(&self, key: u64, revenue: u64) -> (b: bool)
        requires
            self.wf(),
        ensures
            b == self.present(key, revenue),
    {
        self.match_multiplicity(key, revenue) > 0
    }

    /// Reads the net multiplicity of (`key`, `revenue`) in tier `t`'s line
    /// index.
    pub fn line_multiplicity(&self, t: Tier, key: u64, revenue: u64) -> (m: i64)
        requires
            self.wf(),
        ensures
            m as int == self.line_mult(t, key, revenue),
    {
        match t {
            Tier::Tier1 => lookup_line(&self.tier1.lines, key, revenue),
            Tier::Tier2 => lookup_line(&self.tier2.lines, key, revenue),
            Tier::Tier3 => lookup_line(&self.tier3.lines, key, revenue),
        }
    }

    /// Reads the net multiplicity of `key` in tier `t`'s part index.
    pub fn part_multiplicity(&self, t: Tier, key: u64) -> (m: i64)
        requires
            self.wf(),
        ensures
            m as int == self.part_mult(t, key),
    {
        match t {
            Tier::Tier1 => lookup_key(&self.tier1.parts, key),
            Tier::Tier2 => lookup_key(&self.tier2.parts, key),
            Tier::Tier3 => lookup_key(&self.tier3.parts, key),
        }
    }
}

/// Builds the query's evaluation plan in its initial state.  Updates of the
/// two relations are then fed to [`QueryState::update_lineitem`] and
/// [`QueryState::update_part`], and the running result and progress
/// watermark are read back from the state.
pub fn query() -> (s: QueryState)
    ensures
        s.wf(),
        s.frontier == 0,
        forall|t: Tier, k: u64, r: u64| #[trigger] s.line_mult(t, k, r) == 0,
        forall|t: Tier, k: u64| #[trigger] s.part_mult(t, k) == 0,
        forall|k: u64, r: u64| #[trigger] s.match_mult(k, r) == 0,
        s.result_spec() == 0,
{
    QueryState::new()
}

/// The conditions under which [`QueryState::update_lineitem`] accepts an
/// update: a well-formed row, a timestamp at or past the watermark, and
/// multiplicity bookkeeping that stays within the machine word (checked one
/// product at a time).
pub open spec fn lineitem_update_ok(pre: QueryState, li: LineItem, ts: u64, d: int) -> bool {
    &&& li.valid()
    &&& ts >= pre.frontier
    &&& (lineitem_in_tier(li, Tier::Tier1) ==> fits_i64(
        pre.line_mult(Tier::Tier1, li.part_key, li.revenue_val()) + d,
    ) && fits_i64(d * pre.part_mult(Tier::Tier1, li.part_key)))
    &&& (lineitem_in_tier(li, Tier::Tier2) ==> fits_i64(
        pre.line_mult(Tier::Tier2, li.part_key, li.revenue_val()) + d,
    ) && fits_i64(d * pre.part_mult(Tier::Tier2, li.part_key)))
    &&& (lineitem_in_tier(li, Tier::Tier3) ==> fits_i64(
        pre.line_mult(Tier::Tier3, li.part_key, li.revenue_val()) + d,
    ) && fits_i64(d * pre.part_mult(Tier::Tier3, li.part_key)))
    &&& fits_i64(line_step_delta(pre, li, d))
    &&& fits_i64(pre.match_mult(li.part_key, li.revenue_val()) + line_step_delta(pre, li, d))
}

/// The conditions under which [`QueryState::update_part`] accepts an update.
pub open spec fn part_update_ok(pre: QueryState, p: Part, ts: u64, d: int) -> bool {
    &&& ts >= pre.frontier
    &&& (part_in_tier(p, Tier::Tier1) ==> fits_i64(pre.part_mult(Tier::Tier1, p.part_key) + d))
    &&& (part_in_tier(p, Tier::Tier2) ==> fits_i64(pre.part_mult(Tier::Tier2, p.part_key) + d))
    &&& (part_in_tier(p, Tier::Tier3) ==> fits_i64(pre.part_mult(Tier::Tier3, p.part_key) + d))
    &&& forall|r: u64|
        fits_i64((#[trigger] pre.match_mult(p.part_key, r)) + part_step_delta(pre, p, r, d))
}

/// Checks that sweeping `lines` at `key` with weight `d` keeps every match
/// multiplicity within the machine word.
fn part_sweep_fits(lines: &Vec<LineEntry>, matches: &Vec<LineEntry>, key: u64, d: i64) -> (ok:
    bool)
    requires
        line_entries_unique(lines@),
        line_entries_unique(matches@),
    ensures
        ok == forall|r: u64|
            fits_i64(
                (#[trigger] line_weight(matches@, key, r)) + line_weight(lines@, key, r) * d,
            ),
{
    let n = lines.len();
    let mut i: usize = 0;
    while i < n
        invariant
            line_entries_unique(lines@),
            line_entries_unique(matches@),
            n == lines@.len(),
            i <= n,
            forall|j: int|
                0 <= j < i && lines@[j].key == key ==> fits_i64(
                    line_weight(matches@, key, lines@[j].revenue) + (lines@[j].mult as int) * (
                    d as int),
                ),
        decreases n - i,
    {
        let e = lines[i];
        if e.key == key {
            let mm = lookup_line(matches, key, e.revenue);
            proof {
                lemma_i64_product_fits_i128(e.mult as int, d as int);
                lemma_line_weight_unique_at(lines@, i as int);
            }
            let t: i128 = mm as i128 + (e.mult as i128) * (d as i128);
            if t < i64::MIN as i128 || t > i64::MAX as i128 {
                return false;
            }
        }
        i = i + 1;
    }
    proof {
        lemma_line_weight_fits(matches@);
        assert forall|r: u64|
            fits_i64(
                (#[trigger] line_weight(matches@, key, r)) + line_weight(lines@, key, r) * (
                d as int),
            ) by {
            if line_weight(lines@, key, r) != 0 {
                lemma_line_weight_nonzero_exists(lines@, key, r);
                let j = choose|j: int|
                    0 <= j < lines@.len() && lines@[j].key == key && lines@[j].revenue == r;
                lemma_line_weight_unique_at(lines@, j);
            }
        }
    }
    true
}

/// Moves one tier's part index by `d` at `key` and sweeps the tier's line
/// index into the match multiset.
fn apply_part_tier(ti: &mut TierIndex, matches: &mut Vec<LineEntry>, key: u64, d: i64)
    requires
        key_entries_unique(old(ti).parts@),
        line_entries_unique(old(ti).lines@),
        line_entries_unique(old(matches)@),
        fits_i64(key_weight(old(ti).parts@, key) + d),
        forall|r: u64|
            fits_i64(
                (#[trigger] line_weight(old(matches)@, key, r)) + line_weight(
                    old(ti).lines@,
                    key,
                    r,
                ) * d,
            ),
    ensures
        final(ti).lines == old(ti).lines,
        key_entries_unique(final(ti).parts@),
        line_entries_unique(final(ti).lines@),
        line_entries_unique(final(matches)@),
        forall|k: u64|
            key_weight(final(ti).parts@, k) == key_weight(old(ti).parts@, k) + (if k == key {
                d as int
            } else {
                0
            }),
        forall|k: u64, r: u64|
            line_weight(final(matches)@, k, r) == line_weight(old(matches)@, k, r) + (if k == key {
                line_weight(old(ti).lines@, k, r) * d
            } else {
                0
            }),
{
    bump_key(&mut ti.parts, key, d);
    apply_part_delta(&ti.lines, matches, key, d);
}

/// What the first `n` entries of a tier's line index contribute to the match
/// multiplicity of (`key`, `r`) when the tier's part side moves by `d`.
pub open spec fn prefix_part_delta(s: Seq<LineEntry>, key: u64, r: u64, d: int, n: int) -> int
    decreases n,
{
    if n <= 0 {
        0
    } else {
        prefix_part_delta(s, key, r, d, n - 1) + (if s[n - 1].key == key && s[n - 1].revenue == r {
            s[n - 1].mult * d
        } else {
            0
        })
    }
}

/// Over the whole index the prefix contribution is the pair's net line
/// multiplicity times `d`.
proof fn lemma_prefix_part_delta_total(s: Seq<LineEntry>, key: u64, r: u64, d: int, n: int)
    requires
        0 <= n <= s.len(),
    ensures
        prefix_part_delta(s, key, r, d, n) == line_weight(s.take(n), key, r) * d,
    decreases n,
{
    if n == 0 {
        assert(s.take(0) =~= Seq::<LineEntry>::empty());
        assert(line_weight(s.take(0), key, r) * d == 0) by (nonlinear_arith)
            requires
                line_weight(s.take(0), key, r) == 0,
        ;
    } else {
        lemma_prefix_part_delta_total(s, key, r, d, n - 1);
        assert(s.take(n).drop_last() =~= s.take(n - 1));
        assert(s.take(n).last() == s[n - 1]);
        let w = line_weight(s.take(n - 1), key, r);
        let c = line_contrib(s[n - 1], key, r);
        assert((w + c) * d == w * d + c * d) by (nonlinear_arith);
    }
}

/// A prefix with no entry for the pair contributes nothing to it.
proof fn lemma_prefix_part_delta_absent(s: Seq<LineEntry>, key: u64, r: u64, d: int, n: int)
    requires
        0 <= n <= s.len(),
        forall|j: int| 0 <= j < n ==> !(s[j].key == key && s[j].revenue == r),
    ensures
        prefix_part_delta(s, key, r, d, n) == 0,
    decreases n,
{
    if n > 0 {
        lemma_prefix_part_delta_absent(s, key, r, d, n - 1);
    }
}

/// Sweeps one tier's line index after its part side moved by `d` at `key`:
/// every match (`key`, `r`) gains the tier's line multiplicity of the pair
/// times `d`; other matches stay.
fn apply_part_delta(lines: &Vec<LineEntry>, matches: &mut Vec<LineEntry>, key: u64, d: i64)
    requires
        line_entries_unique(lines@),
        line_entries_unique(old(matches)@),
        forall|r: u64|
            fits_i64(
                (#[trigger] line_weight(old(matches)@, key, r)) + line_weight(lines@, key, r) * d,
            ),
    ensures
        line_entries_unique(final(matches)@),
        forall|k: u64, r: u64|
            line_weight(final(matches)@, k, r) == line_weight(old(matches)@, k, r) + (if k == key {
                line_weight(lines@, k, r) * d
            } else {
                0
            }),
{
    let ghost m0 = matches@;
    let n = lines.len();
    let mut i: usize = 0;
    while i < n
        invariant
            line_entries_unique(lines@),
            line_entries_unique(matches@),
            n == lines@.len(),
            i <= n,
            forall|r: u64|
                fits_i64(
                    (#[trigger] line_weight(m0, key, r)) + line_weight(lines@, key, r) * d,
                ),
            forall|k: u64, r: u64|
                line_weight(matches@, k, r) == line_weight(m0, k, r) + (if k == key {
                    prefix_part_delta(lines@, key, r, d as int, i as int)
                } else {
                    0
                }),
        decreases n - i,
    {
        let e = lines[i];
        if e.key == key {
            proof {
                lemma_line_weight_unique_at(lines@, i as int);
                assert(lines@.take(lines@.len() as int) =~= lines@);
                lemma_prefix_part_delta_total(lines@, key, e.revenue, d as int, lines@.len() as int);
                lemma_prefix_part_delta_absent(lines@, key, e.revenue, d as int, i as int);
                lemma_i64_product_fits_i128(e.mult as int, d as int);
                assert((e.mult as int) * (d as int) == line_weight(lines@, key, e.revenue) * (
                d as int));
                assert(fits_i64(
                    line_weight(m0, key, e.revenue) + line_weight(lines@, key, e.revenue) * (
                    d as int),
                ));
            }
            bump_line(matches, key, e.revenue, (e.mult as i128) * (d as i128));
            proof {
                assert forall|k: u64, r: u64|
                    line_weight(matches@, k, r) == line_weight(m0, k, r) + (if k == key {
                        prefix_part_delta(lines@, key, r, d as int, i as int + 1)
                    } else {
                        0
                    }) by {
                    assert(prefix_part_delta(lines@, key, r, d as int, i as int + 1)
                        == prefix_part_delta(lines@, key, r, d as int, i as int) + (if lines@[
                    i as int].key == key && lines@[i as int].revenue == r {
                        lines@[i as int].mult * (d as int)
                    } else {
                        0
                    }));
                }
            }
        } else {
            proof {
                assert forall|k: u64, r: u64|
                    line_weight(matches@, k, r) == line_weight(m0, k, r) + (if k == key {
                        prefix_part_delta(lines@, key, r, d as int, i as int + 1)
                    } else {
                        0
                    }) by {
                    assert(prefix_part_delta(lines@, key, r, d as int, i as int + 1)
                        == prefix_part_delta(lines@, key, r, d as int, i as int));
                }
            }
        }
        i = i + 1;
    }
    proof {
        assert(lines@.take(n as int) =~= lines@);
        assert forall|k: u64, r: u64|
            line_weight(matches@, k, r) == line_weight(m0, k, r) + (if k == key {
                line_weight(lines@, k, r) * (d as int)
            } else {
                0
            }) by {
            lemma_prefix_part_delta_total(lines@, key, r, d as int, n as int);
        }
    }
}

/// The product of two multiplicity words stays well within the wide word:
/// its magnitude is at most 2^126, which leaves room to add one more
/// multiplicity word without overflow.
proof fn lemma_i64_product_fits_i128(a: int, b: int)
    requires
        i64::MIN <= a <= i64::MAX,
        i64::MIN <= b <= i64::MAX,
    ensures
        -85070591730234615865843651857942052864 <= a * b
            <= 85070591730234615865843651857942052864,
{
    assert(-85070591730234615865843651857942052864 <= a * b
        <= 85070591730234615865843651857942052864) by (nonlinear_arith)
        requires
            i64::MIN <= a <= i64::MAX,
            i64::MIN <= b <= i64::MAX,
    ;
}

} // verus!
