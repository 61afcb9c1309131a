//! Multiplicity-weighted keyed indexes.
//!
//! A relation's state at one key is the *net multiplicity*: the sum of the
//! signed weights of all updates seen for that key.  The indexes here are
//! association lists of entries with unique keys; the model of a list is the
//! function from keys to net multiplicities, and every operation's contract
//! is stated over that model.

use vstd::prelude::*;

verus! {

/// `x` fits the signed multiplicity word.
pub open spec fn fits_i64(x: int) -> bool {
    i64::MIN <= x <= i64::MAX
}

/// One (key, revenue) pair with its net multiplicity.
#[derive(Clone, Copy)]
pub struct LineEntry {
    pub key: u64,
    pub revenue: u64,
    pub mult: i64,
}

/// One part key with its net multiplicity.
#[derive(Clone, Copy)]
pub struct KeyEntry {
    pub key: u64,
    pub mult: i64,
}

/// The contribution of entry `e` to the net multiplicity of (`k`, `r`).
pub open spec fn line_contrib(e: LineEntry, k: u64, r: u64) -> int {
    if e.key == k && e.revenue == r {
        e.mult as int
    } else {
        0
    }
}

/// The contribution of entry `e` to the net multiplicity of `k`.
pub open spec fn key_contrib(e: KeyEntry, k: u64) -> int {
    if e.key == k {
        e.mult as int
    } else {
        0
    }
}

/// Net multiplicity of the pair (`k`, `r`) in the list: the sum of the
/// matching entries' multiplicities.
pub open spec fn line_weight(s: Seq<LineEntry>, k: u64, r: u64) -> int
    decreases s.len(),
{
    if s.len() == 0 {
        0
    } else {
        line_weight(s.drop_last(), k, r) + line_contrib(s.last(), k, r)
    }
}

/// Net multiplicity of the key `k` in the list.
pub open spec fn key_weight(s: Seq<KeyEntry>, k: u64) -> int
    decreases s.len(),
{
    if s.len() == 0 {
        0
    } else {
        key_weight(s.drop_last(), k) + key_contrib(s.last(), k)
    }
}

/// No two entries name the same (key, revenue) pair.
pub open spec fn line_entries_unique(s: Seq<LineEntry>) -> bool {
    forall|i: int, j: int|
        0 <= i < j < s.len() ==> !(s[i].key == s[j].key && s[i].revenue == s[j].revenue)
}

/// No two entries name the same key.
pub open spec fn key_entries_unique(s: Seq<KeyEntry>) -> bool {
    forall|i: int, j: int| 0 <= i < j < s.len() ==> s[i].key != s[j].key
}

/// Appending an entry adds its contribution to every pair's weight.
pub proof fn lemma_line_weight_push(s: Seq<LineEntry>, e: LineEntry)
    ensures
        forall|k: u64, r: u64|
            line_weight(s.push(e), k, r) == line_weight(s, k, r) + line_contrib(e, k, r),
{
    assert forall|k: u64, r: u64|
        line_weight(s.push(e), k, r) == line_weight(s, k, r) + line_contrib(e, k, r) by {
        assert(s.push(e).drop_last() =~= s);
        assert(s.push(e).last() == e);
    }
}

/// Appending an entry adds its contribution to every key's weight.
pub proof fn lemma_key_weight_push(s: Seq<KeyEntry>, e: KeyEntry)
    ensures
        forall|k: u64| key_weight(s.push(e), k) == key_weight(s, k) + key_contrib(e, k),
{
    assert forall|k: u64| key_weight(s.push(e), k) == key_weight(s, k) + key_contrib(e, k) by {
        assert(s.push(e).drop_last() =~= s);
        assert(s.push(e).last() == e);
    }
}

/// Replacing the entry at `i` swaps its contribution for the new one.
pub proof fn lemma_line_weight_update(s: Seq<LineEntry>, i: int, e: LineEntry, k: u64, r: u64)
    requires
        0 <= i < s.len(),
    ensures
        line_weight(s.update(i, e), k, r) == line_weight(s, k, r) - line_contrib(s[i], k, r)
            + line_contrib(e, k, r),
    decreases s.len(),
{
    let t = s.update(i, e);
    if i == s.len() - 1 {
        assert(t.drop_last() =~= s.drop_last());
        assert(t.last() == e);
    } else {
        assert(t.drop_last() =~= s.drop_last().update(i, e));
        assert(t.last() == s.last());
        lemma_line_weight_update(s.drop_last(), i, e, k, r);
    }
}

/// Replacing the entry at `i` swaps its contribution for the new one.
pub proof fn lemma_key_weight_update(s: Seq<KeyEntry>, i: int, e: KeyEntry, k: u64)
    requires
        0 <= i < s.len(),
    ensures
        key_weight(s.update(i, e), k) == key_weight(s, k) - key_contrib(s[i], k) + key_contrib(
            e,
            k,
        ),
    decreases s.len(),
{
    let t = s.update(i, e);
    if i == s.len() - 1 {
        assert(t.drop_last() =~= s.drop_last());
        assert(t.last() == e);
    } else {
        assert(t.drop_last() =~= s.drop_last().update(i, e));
        assert(t.last() == s.last());
        lemma_key_weight_update(s.drop_last(), i, e, k);
    }
}

/// Removing the entry at `i` removes exactly its contribution.
pub proof fn lemma_line_weight_remove(s: Seq<LineEntry>, i: int, k: u64, r: u64)
    requires
        0 <= i < s.len(),
    ensures
        line_weight(s.remove(i), k, r) == line_weight(s, k, r) - line_contrib(s[i], k, r),
    decreases s.len(),
{
    let t = s.remove(i);
    if i == s.len() - 1 {
        assert(t =~= s.drop_last());
    } else {
        assert(t.drop_last() =~= s.drop_last().remove(i));
        assert(t.last() == s.last());
        lemma_line_weight_remove(s.drop_last(), i, k, r);
    }
}

/// A pair named by no entry has weight zero.
pub proof fn lemma_line_weight_absent(s: Seq<LineEntry>, k: u64, r: u64)
    requires
        forall|i: int| 0 <= i < s.len() ==> !(s[i].key == k && s[i].revenue == r),
    ensures
        line_weight(s, k, r) == 0,
    decreases s.len(),
{
    if s.len() > 0 {
        lemma_line_weight_absent(s.drop_last(), k, r);
    }
}

/// A key named by no entry has weight zero.
pub proof fn lemma_key_weight_absent(s: Seq<KeyEntry>, k: u64)
    requires
        forall|i: int| 0 <= i < s.len() ==> s[i].key != k,
    ensures
        key_weight(s, k) == 0,
    decreases s.len(),
{
    if s.len() > 0 {
        lemma_key_weight_absent(s.drop_last(), k);
    }
}

/// In a unique list the weight of an entry's pair is that entry's
/// multiplicity.
pub proof fn lemma_line_weight_unique_at(s: Seq<LineEntry>, i: int)
    requires
        line_entries_unique(s),
        0 <= i < s.len(),
    ensures
        line_weight(s, s[i].key, s[i].revenue) == s[i].mult,
    decreases s.len(),
{
    if i == s.len() - 1 {
        lemma_line_weight_absent(s.drop_last(), s[i].key, s[i].revenue);
    } else {
        lemma_line_weight_unique_at(s.drop_last(), i);
    }
}

/// In a unique list the weight of an entry's key is that entry's
/// multiplicity.
pub proof fn lemma_key_weight_unique_at(s: Seq<KeyEntry>, i: int)
    requires
        key_entries_unique(s),
        0 <= i < s.len(),
    ensures
        key_weight(s, s[i].key) == s[i].mult,
    decreases s.len(),
{
    if i == s.len() - 1 {
        lemma_key_weight_absent(s.drop_last(), s[i].key);
    } else {
        lemma_key_weight_unique_at(s.drop_last(), i);
    }
}

/// A pair with nonzero weight is named by some entry.
pub proof fn lemma_line_weight_nonzero_exists(s: Seq<LineEntry>, k: u64, r: u64)
    requires
        line_weight(s, k, r) != 0,
    ensures
        exists|i: int| 0 <= i < s.len() && s[i].key == k && s[i].revenue == r,
{
    if forall|i: int| 0 <= i < s.len() ==> !(s[i].key == k && s[i].revenue == r) {
        lemma_line_weight_absent(s, k, r);
    }
}

/// In a unique list every pair's weight is itself a single entry's
/// multiplicity or zero, so it fits the multiplicity word.
pub proof fn lemma_line_weight_fits(s: Seq<LineEntry>)
    requires
        line_entries_unique(s),
    ensures
        forall|k: u64, r: u64| fits_i64(#[trigger] line_weight(s, k, r)),
{
    assert forall|k: u64, r: u64| fits_i64(#[trigger] line_weight(s, k, r)) by {
        if line_weight(s, k, r) != 0 {
            lemma_line_weight_nonzero_exists(s, k, r);
            let j = choose|j: int| 0 <= j < s.len() && s[j].key == k && s[j].revenue == r;
            lemma_line_weight_unique_at(s, j);
        }
    }
}

/// Uniqueness survives removing an entry.
pub proof fn lemma_line_unique_remove(s: Seq<LineEntry>, i: int)
    requires
        line_entries_unique(s),
        0 <= i < s.len(),
    ensures
        line_entries_unique(s.remove(i)),
{
    let t = s.remove(i);
    assert forall|a: int, b: int| 0 <= a < b < t.len() implies !(t[a].key == t[b].key
        && t[a].revenue == t[b].revenue) by {
        let a0 = if a < i {
            a
        } else {
            a + 1
        };
        let b0 = if b < i {
            b
        } else {
            b + 1
        };
        assert(t[a] == s[a0]);
        assert(t[b] == s[b0]);
    }
}

/// Removing the entry at `j` removes exactly its contribution to the total.
pub proof fn lemma_sum_remove(s: Seq<LineEntry>, j: int)
    requires
        0 <= j < s.len(),
    ensures
        present_revenue_sum(s.remove(j)) == present_revenue_sum(s) - (if s[j].mult > 0 {
            s[j].revenue as int
        } else {
            0
        }),
    decreases s.len(),
{
    let t = s.remove(j);
    if j == s.len() - 1 {
        assert(t =~= s.drop_last());
    } else {
        assert(t.drop_last() =~= s.drop_last().remove(j));
        assert(t.last() == s.last());
        lemma_sum_remove(s.drop_last(), j);
    }
}

/// A list with no positive entry has total zero.
pub proof fn lemma_sum_no_positive(s: Seq<LineEntry>)
    requires
        forall|i: int| 0 <= i < s.len() ==> s[i].mult <= 0,
    ensures
        present_revenue_sum(s) == 0,
    decreases s.len(),
{
    if s.len() > 0 {
        lemma_sum_no_positive(s.drop_last());
    }
}

/// Deduplication, stated over the lists themselves: two unique lists that
/// agree on which pairs have positive net multiplicity have the same
/// deduplicated revenue total, whatever the multiplicities' sizes.
pub proof fn lemma_present_sum_eq(a: Seq<LineEntry>, b: Seq<LineEntry>)
    requires
        line_entries_unique(a),
        line_entries_unique(b),
        forall|k: u64, r: u64| (#[trigger] line_weight(a, k, r)) > 0 <==> line_weight(b, k, r) > 0,
    ensures
        present_revenue_sum(a) == present_revenue_sum(b),
    decreases a.len(),
{
    if a.len() == 0 {
        assert forall|i: int| 0 <= i < b.len() implies b[i].mult <= 0 by {
            lemma_line_weight_unique_at(b, i);
            assert(line_weight(a, b[i].key, b[i].revenue) == 0);
        }
        lemma_sum_no_positive(b);
    } else {
        let e = a.last();
        let a0 = a.drop_last();
        assert(line_entries_unique(a0)) by {
            assert forall|i: int, j: int| 0 <= i < j < a0.len() implies !(a0[i].key == a0[j].key
                && a0[i].revenue == a0[j].revenue) by {
                assert(a0[i] == a[i]);
                assert(a0[j] == a[j]);
            }
        }
        lemma_line_weight_unique_at(a, a.len() - 1);
        assert forall|i: int| 0 <= i < a0.len() implies !(a0[i].key == e.key && a0[i].revenue
            == e.revenue) by {
            assert(a0[i] == a[i]);
        }
        lemma_line_weight_absent(a0, e.key, e.revenue);
        if e.mult > 0 {
            assert(line_weight(b, e.key, e.revenue) > 0);
            lemma_line_weight_nonzero_exists(b, e.key, e.revenue);
            let j = choose|j: int|
                0 <= j < b.len() && b[j].key == e.key && b[j].revenue == e.revenue;
            lemma_line_weight_unique_at(b, j);
            let b0 = b.remove(j);
            lemma_line_unique_remove(b, j);
            assert forall|k: u64, r: u64| (#[trigger] line_weight(a0, k, r)) > 0 <==> line_weight(
                b0,
                k,
                r,
            ) > 0 by {
                lemma_line_weight_remove(b, j, k, r);
                assert(line_weight(a, k, r) == line_weight(a0, k, r) + line_contrib(e, k, r));
            }
            lemma_present_sum_eq(a0, b0);
            lemma_sum_remove(b, j);
        } else {
            assert forall|k: u64, r: u64| (#[trigger] line_weight(a0, k, r)) > 0 <==> line_weight(
                b,
                k,
                r,
            ) > 0 by {
                assert(line_weight(a, k, r) == line_weight(a0, k, r) + line_contrib(e, k, r));
                assert(line_weight(a, k, r) > 0 <==> line_weight(b, k, r) > 0);
            }
            lemma_present_sum_eq(a0, b);
        }
    }
}

/// A unique list in which no pair has positive weight has total zero.
pub proof fn lemma_present_sum_none(s: Seq<LineEntry>)
    requires
        line_entries_unique(s),
        forall|k: u64, r: u64| #[trigger] line_weight(s, k, r) <= 0,
    ensures
        present_revenue_sum(s) == 0,
{
    assert forall|i: int| 0 <= i < s.len() implies s[i].mult <= 0 by {
        lemma_line_weight_unique_at(s, i);
        assert(line_weight(s, s[i].key, s[i].revenue) <= 0);
    }
    lemma_sum_no_positive(s);
}

/// A unique list whose only positively weighted pair is (`k0`, `r0`) has
/// total exactly `r0`.
pub proof fn lemma_present_sum_single(s: Seq<LineEntry>, k0: u64, r0: u64)
    requires
        line_entries_unique(s),
        line_weight(s, k0, r0) > 0,
        forall|k: u64, r: u64| #[trigger] line_weight(s, k, r) > 0 ==> (k == k0 && r == r0),
    ensures
        present_revenue_sum(s) == r0,
    decreases s.len(),
{
    assert(s.len() > 0) by {
        if s.len() == 0 {
            assert(line_weight(s, k0, r0) == 0);
        }
    }
    let e = s.last();
    let a0 = s.drop_last();
    assert(line_entries_unique(a0)) by {
        assert forall|i: int, j: int| 0 <= i < j < a0.len() implies !(a0[i].key == a0[j].key
            && a0[i].revenue == a0[j].revenue) by {
            assert(a0[i] == s[i]);
            assert(a0[j] == s[j]);
        }
    }
    lemma_line_weight_unique_at(s, s.len() - 1);
    assert forall|i: int| 0 <= i < a0.len() implies !(a0[i].key == e.key && a0[i].revenue
        == e.revenue) by {
        assert(a0[i] == s[i]);
    }
    lemma_line_weight_absent(a0, e.key, e.revenue);
    if e.key == k0 && e.revenue == r0 {
        assert(line_weight(s, k0, r0) == e.mult as int);
        assert(e.mult > 0);
        assert forall|k: u64, r: u64| #[trigger] line_weight(a0, k, r) <= 0 by {
            assert(line_weight(s, k, r) == line_weight(a0, k, r) + line_contrib(e, k, r));
            if line_weight(a0, k, r) > 0 {
                assert(line_weight(s, k, r) > 0);
            }
        }
        lemma_present_sum_none(a0);
    } else {
        assert(line_weight(s, e.key, e.revenue) == e.mult as int);
        assert(e.mult <= 0);
        assert(line_weight(s, k0, r0) == line_weight(a0, k0, r0) + line_contrib(e, k0, r0));
        assert forall|k: u64, r: u64| #[trigger] line_weight(a0, k, r) > 0 implies (k == k0 && r
            == r0) by {
            assert(line_weight(s, k, r) == line_weight(a0, k, r) + line_contrib(e, k, r));
        }
        lemma_present_sum_single(a0, k0, r0);
    }
}

/// Finds the entry naming (`key`, `rev`), if any.
fn find_line(v: &Vec<LineEntry>, key: u64, rev: u64) -> (res: Option<usize>)
    ensures
        match res {
            Some(i) => i < v@.len() && v@[i as int].key == key && v@[i as int].revenue == rev,
            None => forall|i: int|
                0 <= i < v@.len() ==> !(v@[i].key == key && v@[i].revenue == rev),
        },
{
    let mut i: usize = 0;
    while i < v.len()
        invariant
            i <= v@.len(),
            forall|j: int| 0 <= j < i ==> !(v@[j].key == key && v@[j].revenue == rev),
        decreases v@.len() - i,
    {
        if v[i].key == key && v[i].revenue == rev {
            return Some(i);
        }
        i = i + 1;
    }
    None
}

/// Finds the entry naming `key`, if any.
fn find_key(v: &Vec<KeyEntry>, key: u64) -> (res: Option<usize>)
    ensures
        match res {
            Some(i) => i < v@.len() && v@[i as int].key == key,
            None => forall|i: int| 0 <= i < v@.len() ==> v@[i].key != key,
        },
{
    let mut i: usize = 0;
    while i < v.len()
        invariant
            i <= v@.len(),
            forall|j: int| 0 <= j < i ==> v@[j].key != key,
        decreases v@.len() - i,
    {
        if v[i].key == key {
            return Some(i);
        }
        i = i + 1;
    }
    None
}

/// Reads the net multiplicity of (`key`, `rev`).
pub(crate) fn lookup_line(v: &Vec<LineEntry>, key: u64, rev: u64) -> (m: i64)
    requires
        line_entries_unique(v@),
    ensures
        m as int == line_weight(v@, key, rev),
{
    match find_line(v, key, rev) {
        Some(i) => {
            proof {
                lemma_line_weight_unique_at(v@, i as int);
            }
            v[i].mult
        },
        None => {
            proof {
                lemma_line_weight_absent(v@, key, rev);
            }
            0
        },
    }
}

/// Reads the net multiplicity of `key`.
pub(crate) fn lookup_key(v: &Vec<KeyEntry>, key: u64) -> (m: i64)
    requires
        key_entries_unique(v@),
    ensures
        m as int == key_weight(v@, key),
{
    match find_key(v, key) {
        Some(i) => {
            proof {
                lemma_key_weight_unique_at(v@, i as int);
            }
            v[i].mult
        },
        None => {
            proof {
                lemma_key_weight_absent(v@, key);
            }
            0
        },
    }
}

/// Adds `d` to the net multiplicity of (`key`, `rev`) and leaves every other
/// pair's weight unchanged.
pub(crate) fn bump_line(v: &mut Vec<LineEntry>, key: u64, rev: u64, d: i128)
    requires
        line_entries_unique(old(v)@),
        fits_i64(line_weight(old(v)@, key, rev) + d),
    ensures
        line_entries_unique(final(v)@),
        forall|k: u64, r: u64|
            line_weight(final(v)@, k, r) == line_weight(old(v)@, k, r) + (if k == key && r == rev {
                d
            } else {
                0
            }),
{
    match find_line(v, key, rev) {
        Some(i) => {
            let e = v[i];
            proof {
                lemma_line_weight_unique_at(v@, i as int);
            }
            let wide: i128 = e.mult as i128 + d;
            let ne = LineEntry { key: key, revenue: rev, mult: wide as i64 };
            v.set(i, ne);
            proof {
                let s0 = old(v)@;
                assert forall|k: u64, r: u64|
                    line_weight(v@, k, r) == line_weight(s0, k, r) + (if k == key && r == rev {
                        d
                    } else {
                        0
                    }) by {
                    lemma_line_weight_update(s0, i as int, ne, k, r);
                }
                assert forall|a: int, b: int| 0 <= a < b < v@.len() implies !(v@[a].key
                    == v@[b].key && v@[a].revenue == v@[b].revenue) by {
                    assert(s0[a].key == v@[a].key && s0[a].revenue == v@[a].revenue);
                    assert(s0[b].key == v@[b].key && s0[b].revenue == v@[b].revenue);
                }
            }
        },
        None => {
            proof {
                lemma_line_weight_absent(v@, key, rev);
            }
            let ne = LineEntry { key: key, revenue: rev, mult: d as i64 };
            v.push(ne);
            proof {
                lemma_line_weight_push(old(v)@, ne);
            }
        },
    }
}

/// Adds `d` to the net multiplicity of `key` and leaves every other key's
/// weight unchanged.
pub(crate) fn bump_key(v: &mut Vec<KeyEntry>, key: u64, d: i64)
    requires
        key_entries_unique(old(v)@),
        fits_i64(key_weight(old(v)@, key) + d),
    ensures
        key_entries_unique(final(v)@),
        forall|k: u64|
            key_weight(final(v)@, k) == key_weight(old(v)@, k) + (if k == key {
                d as int
            } else {
                0
            }),
{
    match find_key(v, key) {
        Some(i) => {
            let e = v[i];
            proof {
                lemma_key_weight_unique_at(v@, i as int);
            }
            let wide: i128 = e.mult as i128 + d as i128;
            let ne = KeyEntry { key: key, mult: wide as i64 };
            v.set(i, ne);
            proof {
                let s0 = old(v)@;
                assert forall|k: u64|
                    key_weight(v@, k) == key_weight(s0, k) + (if k == key {
                        d as int
                    } else {
                        0
                    }) by {
                    lemma_key_weight_update(s0, i as int, ne, k);
                }
                assert forall|a: int, b: int| 0 <= a < b < v@.len() implies v@[a].key
                    != v@[b].key by {
                    assert(s0[a].key == v@[a].key);
                    assert(s0[b].key == v@[b].key);
                }
            }
        },
        None => {
            proof {
                lemma_key_weight_absent(v@, key);
            }
            let ne = KeyEntry { key: key, mult: d };
            v.push(ne);
            proof {
                lemma_key_weight_push(old(v)@, ne);
            }
        },
    }
}

/// The deduplicated revenue total of the list: each entry with positive net
/// multiplicity contributes its revenue exactly once, whatever the size of
/// the multiplicity.
pub open spec fn present_revenue_sum(s: Seq<LineEntry>) -> int
    decreases s.len(),
{
    if s.len() == 0 {
        0
    } else {
        present_revenue_sum(s.drop_last()) + (if s.last().mult > 0 {
            s.last().revenue as int
        } else {
            0
        })
    }
}

/// One more prefix element adds its (possibly zero) contribution.
pub proof fn lemma_sum_take_succ(s: Seq<LineEntry>, i: int)
    requires
        0 <= i < s.len(),
    ensures
        present_revenue_sum(s.take(i + 1)) == present_revenue_sum(s.take(i)) + (if s[i].mult > 0 {
            s[i].revenue as int
        } else {
            0
        }),
{
    assert(s.take(i + 1).drop_last() =~= s.take(i));
    assert(s.take(i + 1).last() == s[i]);
}

/// Computes the deduplicated revenue total, reporting an overflowing total
/// rather than computing it.
pub(crate) fn checked_present_revenue_sum(v: &Vec<LineEntry>) -> (r: Option<u64>)
    ensures
        match r {
            Some(x) => x as int == present_revenue_sum(v@) && present_revenue_sum(v@) <= u64::MAX,
            None => present_revenue_sum(v@) > u64::MAX,
        },
{
    let mut acc: u128 = 0;
    let mut i: usize = 0;
    while i < v.len()
        invariant
            i <= v@.len(),
            acc as int == present_revenue_sum(v@.take(i as int)),
            acc as int <= i * (u64::MAX as int),
        decreases v@.len() - i,
    {
        let e = v[i];
        proof {
            lemma_sum_take_succ(v@, i as int);
            assert((i as int) * (u64::MAX as int) + (u64::MAX as int) == (i + 1) * (
            u64::MAX as int)) by (nonlinear_arith);
            assert((i + 1) * (u64::MAX as int) <= (u64::MAX as int) * (u64::MAX as int))
                by (nonlinear_arith)
                requires
                    i + 1 <= u64::MAX,
            ;
        }
        if e.mult > 0 {
            acc = acc + e.revenue as u128;
        }
        i = i + 1;
    }
    proof {
        assert(v@.take(v@.len() as int) =~= v@);
    }
    if acc <= u64::MAX as u128 {
        Some(acc as u64)
    } else {
        None
    }
}

} // verus!
