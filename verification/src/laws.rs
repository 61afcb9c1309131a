//! The library's stated laws, each proved once and for all.

use vstd::prelude::*;
use crate::index::lemma_present_sum_eq;
use crate::index::lemma_present_sum_none;
use crate::index::lemma_present_sum_single;
use crate::index::line_weight;
use crate::pipeline::QueryState;
use crate::pipeline::line_entry_delta;
use crate::pipeline::line_step_delta;
use crate::pipeline::lineitem_step;
use crate::pipeline::part_step;
use crate::pipeline::part_step_delta;
use crate::rows::LineItem;
use crate::rows::Part;
use crate::rows::Tier;
use crate::rows::lineitem_filter_spec;
use crate::rows::lineitem_in_tier;
use crate::rows::part_in_tier;
use crate::rows::seq_brand12;
use crate::rows::seq_brand23;
use crate::rows::seq_brand34;

verus! {

/// The tiers are mutually exclusive on the part side: no part can belong to
/// two tiers, because the three brand prefixes differ pairwise within their
/// common length.  The plan's union stage adds tier outputs without checking
/// for double counting; this lemma is the configuration-time justification.
pub proof fn lemma_part_tiers_disjoint(p: Part, t1: Tier, t2: Tier)
    requires
        part_in_tier(p, t1),
        part_in_tier(p, t2),
    ensures
        t1 == t2,
{
    if t1 != t2 {
        assert(seq_brand12()[6] == 49u8);
        assert(seq_brand23()[6] == 50u8);
        assert(seq_brand34()[6] == 51u8);
        assert(t1.brand_prefix()[6] == p.brand@[6]);
        assert(t2.brand_prefix()[6] == p.brand@[6]);
    }
}

/// Deduplication idempotence: the result depends only on which matches are
/// present, never on how often a match was produced.  Two well-formed states
/// that agree on presence — however different their match multiplicities —
/// have the same result.
pub proof fn lemma_result_from_presence(a: QueryState, b: QueryState)
    requires
        a.wf(),
        b.wf(),
        forall|k: u64, r: u64| #[trigger] a.present(k, r) <==> b.present(k, r),
    ensures
        a.result_spec() == b.result_spec(),
{
    assert forall|k: u64, r: u64| (#[trigger] line_weight(a.matches@, k, r)) > 0 <==> line_weight(
        b.matches@,
        k,
        r,
    ) > 0 by {
        assert(a.present(k, r) <==> b.present(k, r));
    }
    lemma_present_sum_eq(a.matches@, b.matches@);
}

/// A state with no present match has result zero.
pub proof fn lemma_result_of_no_present(s: QueryState)
    requires
        s.wf(),
        forall|k: u64, r: u64| !#[trigger] s.present(k, r),
    ensures
        s.result_spec() == 0,
{
    assert forall|k: u64, r: u64| #[trigger] line_weight(s.matches@, k, r) <= 0 by {
        assert(!s.present(k, r));
    }
    lemma_present_sum_none(s.matches@);
}

/// A state whose only present match is (`k0`, `r0`) has result exactly
/// `r0`: one present pair contributes its revenue once, whatever its
/// multiplicity.
pub proof fn lemma_result_of_single_present(s: QueryState, k0: u64, r0: u64)
    requires
        s.wf(),
        s.present(k0, r0),
        forall|k: u64, r: u64| #[trigger] s.present(k, r) ==> (k == k0 && r == r0),
    ensures
        s.result_spec() == r0,
{
    assert forall|k: u64, r: u64| #[trigger] line_weight(s.matches@, k, r) > 0 implies (k == k0
        && r == r0) by {
        assert(s.present(k, r));
    }
    lemma_present_sum_single(s.matches@, k0, r0);
}

/// Inserting a line item and then retracting the identical row is a no-op:
/// every match multiplicity, and with it the result, returns to its prior
/// value.
pub proof fn lemma_lineitem_roundtrip(
    s0: QueryState,
    s1: QueryState,
    s2: QueryState,
    li: LineItem,
    d: int,
)
    requires
        s0.wf(),
        s1.wf(),
        s2.wf(),
        lineitem_step(s0, s1, li, d),
        lineitem_step(s1, s2, li, -d),
    ensures
        forall|k: u64, r: u64| #[trigger] s2.match_mult(k, r) == s0.match_mult(k, r),
        s2.result_spec() == s0.result_spec(),
{
    assert(line_step_delta(s1, li, -d) == -line_step_delta(s0, li, d)) by {
        assert(s1.part_mult(Tier::Tier1, li.part_key) == s0.part_mult(Tier::Tier1, li.part_key));
        assert(s1.part_mult(Tier::Tier2, li.part_key) == s0.part_mult(Tier::Tier2, li.part_key));
        assert(s1.part_mult(Tier::Tier3, li.part_key) == s0.part_mult(Tier::Tier3, li.part_key));
        let q1 = s0.part_mult(Tier::Tier1, li.part_key);
        let q2 = s0.part_mult(Tier::Tier2, li.part_key);
        let q3 = s0.part_mult(Tier::Tier3, li.part_key);
        assert((-d) * q1 == -(d * q1)) by (nonlinear_arith);
        assert((-d) * q2 == -(d * q2)) by (nonlinear_arith);
        assert((-d) * q3 == -(d * q3)) by (nonlinear_arith);
    }
    assert forall|k: u64, r: u64| #[trigger] s2.match_mult(k, r) == s0.match_mult(k, r) by {
        assert(s1.match_mult(k, r) == s0.match_mult(k, r) + (if k == li.part_key && r
            == li.revenue_val() {
            line_step_delta(s0, li, d)
        } else {
            0
        }));
        assert(s2.match_mult(k, r) == s1.match_mult(k, r) + (if k == li.part_key && r
            == li.revenue_val() {
            line_step_delta(s1, li, -d)
        } else {
            0
        }));
    }
    assert forall|k: u64, r: u64| #[trigger] s2.present(k, r) <==> s0.present(k, r) by {
        assert(s2.match_mult(k, r) == s0.match_mult(k, r));
    }
    lemma_result_from_presence(s2, s0);
}

/// Inserting a part and then retracting the identical row is a no-op: every
/// match it made present falls back to absent, and the result returns to its
/// prior value.
pub proof fn lemma_part_roundtrip(
    s0: QueryState,
    s1: QueryState,
    s2: QueryState,
    p: Part,
    d: int,
)
    requires
        s0.wf(),
        s1.wf(),
        s2.wf(),
        part_step(s0, s1, p, d),
        part_step(s1, s2, p, -d),
    ensures
        forall|k: u64, r: u64| #[trigger] s2.match_mult(k, r) == s0.match_mult(k, r),
        s2.result_spec() == s0.result_spec(),
{
    assert forall|k: u64, r: u64| #[trigger] s2.match_mult(k, r) == s0.match_mult(k, r) by {
        assert(part_step_delta(s1, p, r, -d) == -part_step_delta(s0, p, r, d)) by {
            assert(s1.line_mult(Tier::Tier1, p.part_key, r) == s0.line_mult(
                Tier::Tier1,
                p.part_key,
                r,
            ));
            assert(s1.line_mult(Tier::Tier2, p.part_key, r) == s0.line_mult(
                Tier::Tier2,
                p.part_key,
                r,
            ));
            assert(s1.line_mult(Tier::Tier3, p.part_key, r) == s0.line_mult(
                Tier::Tier3,
                p.part_key,
                r,
            ));
            let l1 = s0.line_mult(Tier::Tier1, p.part_key, r);
            let l2 = s0.line_mult(Tier::Tier2, p.part_key, r);
            let l3 = s0.line_mult(Tier::Tier3, p.part_key, r);
            assert(l1 * (-d) == -(l1 * d)) by (nonlinear_arith);
            assert(l2 * (-d) == -(l2 * d)) by (nonlinear_arith);
            assert(l3 * (-d) == -(l3 * d)) by (nonlinear_arith);
        }
        assert(s1.match_mult(k, r) == s0.match_mult(k, r) + (if k == p.part_key {
            part_step_delta(s0, p, r, d)
        } else {
            0
        }));
        assert(s2.match_mult(k, r) == s1.match_mult(k, r) + (if k == p.part_key {
            part_step_delta(s1, p, r, -d)
        } else {
            0
        }));
    }
    assert forall|k: u64, r: u64| #[trigger] s2.present(k, r) <==> s0.present(k, r) by {
        assert(s2.match_mult(k, r) == s0.match_mult(k, r));
    }
    lemma_result_from_presence(s2, s0);
}

/// Within one timestamp the arrival order of updates is irrelevant:
/// applying a line-item update and a part update in either order leaves the
/// same match multiplicities, and so the same result.
pub proof fn lemma_updates_commute(
    s0: QueryState,
    sa: QueryState,
    sab: QueryState,
    sb: QueryState,
    sba: QueryState,
    li: LineItem,
    p: Part,
    dl: int,
    dp: int,
)
    requires
        s0.wf(),
        sa.wf(),
        sab.wf(),
        sb.wf(),
        sba.wf(),
        lineitem_step(s0, sa, li, dl),
        part_step(sa, sab, p, dp),
        part_step(s0, sb, p, dp),
        lineitem_step(sb, sba, li, dl),
    ensures
        forall|k: u64, r: u64| #[trigger] sab.match_mult(k, r) == sba.match_mult(k, r),
        sab.result_spec() == sba.result_spec(),
{
    let kl = li.part_key;
    let rv = li.revenue_val();
    let kp = p.part_key;
    assert forall|k: u64, r: u64| #[trigger] sab.match_mult(k, r) == sba.match_mult(k, r) by {
        assert(sa.match_mult(k, r) == s0.match_mult(k, r) + (if k == kl && r == rv {
            line_step_delta(s0, li, dl)
        } else {
            0
        }));
        assert(sab.match_mult(k, r) == sa.match_mult(k, r) + (if k == kp {
            part_step_delta(sa, p, r, dp)
        } else {
            0
        }));
        assert(sb.match_mult(k, r) == s0.match_mult(k, r) + (if k == kp {
            part_step_delta(s0, p, r, dp)
        } else {
            0
        }));
        assert(sba.match_mult(k, r) == sb.match_mult(k, r) + (if k == kl && r == rv {
            line_step_delta(sb, li, dl)
        } else {
            0
        }));
        let l1 = s0.line_mult(Tier::Tier1, kp, r);
        let l2 = s0.line_mult(Tier::Tier2, kp, r);
        let l3 = s0.line_mult(Tier::Tier3, kp, r);
        let e1 = line_entry_delta(li, dl, Tier::Tier1, kp, r);
        let e2 = line_entry_delta(li, dl, Tier::Tier2, kp, r);
        let e3 = line_entry_delta(li, dl, Tier::Tier3, kp, r);
        assert(sa.line_mult(Tier::Tier1, kp, r) == l1 + e1);
        assert(sa.line_mult(Tier::Tier2, kp, r) == l2 + e2);
        assert(sa.line_mult(Tier::Tier3, kp, r) == l3 + e3);
        let q1 = s0.part_mult(Tier::Tier1, kl);
        let q2 = s0.part_mult(Tier::Tier2, kl);
        let q3 = s0.part_mult(Tier::Tier3, kl);
        let f1: int = if part_in_tier(p, Tier::Tier1) && kl == kp {
            dp
        } else {
            0
        };
        let f2: int = if part_in_tier(p, Tier::Tier2) && kl == kp {
            dp
        } else {
            0
        };
        let f3: int = if part_in_tier(p, Tier::Tier3) && kl == kp {
            dp
        } else {
            0
        };
        assert(sb.part_mult(Tier::Tier1, kl) == q1 + f1);
        assert(sb.part_mult(Tier::Tier2, kl) == q2 + f2);
        assert(sb.part_mult(Tier::Tier3, kl) == q3 + f3);
        assert((l1 + e1) * dp == l1 * dp + e1 * dp) by (nonlinear_arith);
        assert((l2 + e2) * dp == l2 * dp + e2 * dp) by (nonlinear_arith);
        assert((l3 + e3) * dp == l3 * dp + e3 * dp) by (nonlinear_arith);
        assert(dl * (q1 + f1) == dl * q1 + dl * f1) by (nonlinear_arith);
        assert(dl * (q2 + f2) == dl * q2 + dl * f2) by (nonlinear_arith);
        assert(dl * (q3 + f3) == dl * q3 + dl * f3) by (nonlinear_arith);
    }
    assert forall|k: u64, r: u64| #[trigger] sab.present(k, r) <==> sba.present(k, r) by {
        assert(sab.match_mult(k, r) == sba.match_mult(k, r));
    }
    lemma_result_from_presence(sab, sba);
}

/// A line item whose quantity sits exactly on a shared boundary belongs to
/// both adjacent tiers, and one update of it moves its match multiplicity by
/// `d` times the sum of both tiers' part-side multiplicities: with one
/// matching part row in each tier the match is produced twice, not once.
/// (The deduplicated result still counts the pair's revenue once; see
/// `lemma_result_from_presence`.)
pub proof fn lemma_boundary_double_contribution(
    pre: QueryState,
    post: QueryState,
    li: LineItem,
    d: int,
)
    requires
        pre.wf(),
        post.wf(),
        lineitem_step(pre, post, li, d),
        lineitem_filter_spec(li),
        li.quantity == 10 || li.quantity == 20,
    ensures
        li.quantity == 10 ==> lineitem_in_tier(li, Tier::Tier1) && lineitem_in_tier(li, Tier::Tier2)
            && post.match_mult(li.part_key, li.revenue_val()) == pre.match_mult(
            li.part_key,
            li.revenue_val(),
        ) + d * (pre.part_mult(Tier::Tier1, li.part_key) + pre.part_mult(Tier::Tier2, li.part_key)),
        li.quantity == 20 ==> lineitem_in_tier(li, Tier::Tier2) && lineitem_in_tier(li, Tier::Tier3)
            && post.match_mult(li.part_key, li.revenue_val()) == pre.match_mult(
            li.part_key,
            li.revenue_val(),
        ) + d * (pre.part_mult(Tier::Tier2, li.part_key) + pre.part_mult(Tier::Tier3, li.part_key)),
{
    let key = li.part_key;
    let rev = li.revenue_val();
    assert(post.match_mult(key, rev) == pre.match_mult(key, rev) + line_step_delta(pre, li, d));
    let q1 = pre.part_mult(Tier::Tier1, key);
    let q2 = pre.part_mult(Tier::Tier2, key);
    let q3 = pre.part_mult(Tier::Tier3, key);
    assert(d * (q1 + q2) == d * q1 + d * q2) by (nonlinear_arith);
    assert(d * (q2 + q3) == d * q2 + d * q3) by (nonlinear_arith);
}

} // verus!
