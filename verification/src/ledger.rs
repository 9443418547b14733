//! The per-account bet ledger of one outcome pool: an association table
//! from account to accumulated stake (and, under fixed odds, the payout
//! locked in for that stake), together with the summation theory that the
//! conservation proofs rest on.

use vstd::prelude::*;

verus! {

/// One account's accumulated position in a pool.
#[derive(Debug)]
pub struct BetEntry {
    pub account: String,
    /// Total amount this account has staked on the pool's outcome.
    pub stake: u128,
    /// Total payout locked in for this account (fixed-odds policy only;
    /// zero under pari-mutuel).
    pub payout: u128,
}

impl Clone for BetEntry {
    fn clone(&self) -> (r: Self)
        ensures
            r == *self,
    {
        BetEntry {
            account: self.account.clone(),
            stake: self.stake,
            payout: self.payout,
        }
    }
}

/// The stake recorded for `a`: the first matching row's stake, zero if absent.
pub open spec fn stake_in(s: Seq<BetEntry>, a: Seq<char>) -> u128
    decreases s.len(),
{
    if s.len() == 0 {
        0
    } else if s[0].account@ == a {
        s[0].stake
    } else {
        stake_in(s.skip(1), a)
    }
}

/// The locked payout recorded for `a`, zero if absent.
pub open spec fn payout_in(s: Seq<BetEntry>, a: Seq<char>) -> u128
    decreases s.len(),
{
    if s.len() == 0 {
        0
    } else if s[0].account@ == a {
        s[0].payout
    } else {
        payout_in(s.skip(1), a)
    }
}

/// Whether some row is recorded for `a`.
pub open spec fn has_account(s: Seq<BetEntry>, a: Seq<char>) -> bool
    decreases s.len(),
{
    if s.len() == 0 {
        false
    } else {
        s[0].account@ == a || has_account(s.skip(1), a)
    }
}

/// The row recorded for `a` (meaningful only when `has_account`).
pub open spec fn entry_for(s: Seq<BetEntry>, a: Seq<char>) -> BetEntry
    decreases s.len(),
{
    if s.len() == 0 {
        arbitrary()
    } else if s[0].account@ == a {
        s[0]
    } else {
        entry_for(s.skip(1), a)
    }
}

/// The sum of all stakes in the table.
pub open spec fn sum_stakes(s: Seq<BetEntry>) -> int
    decreases s.len(),
{
    if s.len() == 0 {
        0
    } else {
        s[0].stake + sum_stakes(s.skip(1))
    }
}

/// The sum of all locked payouts in the table.
pub open spec fn sum_payouts(s: Seq<BetEntry>) -> int
    decreases s.len(),
{
    if s.len() == 0 {
        0
    } else {
        s[0].payout + sum_payouts(s.skip(1))
    }
}

/// The sum of an arbitrary per-row weight.
pub open spec fn sum_weights(s: Seq<BetEntry>, w: spec_fn(BetEntry) -> int) -> int
    decreases s.len(),
{
    if s.len() == 0 {
        0
    } else {
        w(s[0]) + sum_weights(s.skip(1), w)
    }
}

/// The sum of a per-row weight over the rows whose account has not yet
/// claimed (per the predicate `c`).
pub open spec fn sum_unclaimed(
    s: Seq<BetEntry>,
    c: spec_fn(Seq<char>) -> bool,
    w: spec_fn(BetEntry) -> int,
) -> int
    decreases s.len(),
{
    if s.len() == 0 {
        0
    } else {
        (if c(s[0].account@) {
            0
        } else {
            w(s[0])
        }) + sum_unclaimed(s.skip(1), c, w)
    }
}

/// No account owns two rows.
pub open spec fn distinct_accounts(s: Seq<BetEntry>) -> bool {
    forall|i: int, j: int|
        #![trigger s[i], s[j]]
        0 <= i < j < s.len() ==> s[i].account@ != s[j].account@
}

/// If rows `0..i` are not for `a` and row `i` is, the lookups all answer
/// from row `i`.
pub proof fn lemma_found_at(s: Seq<BetEntry>, a: Seq<char>, i: int)
    requires
        0 <= i < s.len(),
        s[i].account@ == a,
        forall|j: int| 0 <= j < i ==> (#[trigger] s[j]).account@ != a,
    ensures
        has_account(s, a),
        stake_in(s, a) == s[i].stake,
        payout_in(s, a) == s[i].payout,
        entry_for(s, a) == s[i],
    decreases i,
{
    if i > 0 {
        lemma_found_at(s.skip(1), a, i - 1);
    }
}

/// If no row is for `a`, the lookups all answer zero.
pub proof fn lemma_not_found(s: Seq<BetEntry>, a: Seq<char>)
    requires
        forall|j: int| 0 <= j < s.len() ==> (#[trigger] s[j]).account@ != a,
    ensures
        !has_account(s, a),
        stake_in(s, a) == 0,
        payout_in(s, a) == 0,
    decreases s.len(),
{
    if s.len() > 0 {
        lemma_not_found(s.skip(1), a);
    }
}

/// An absent account holds no stake and no payout.
pub proof fn lemma_absent_zero(s: Seq<BetEntry>, a: Seq<char>)
    requires
        !has_account(s, a),
    ensures
        stake_in(s, a) == 0,
        payout_in(s, a) == 0,
    decreases s.len(),
{
    if s.len() > 0 {
        lemma_absent_zero(s.skip(1), a);
    }
}

/// The row `entry_for` finds is the row the lookups answer from.
pub proof fn lemma_entry_for_props(s: Seq<BetEntry>, a: Seq<char>)
    requires
        has_account(s, a),
    ensures
        entry_for(s, a).account@ == a,
        entry_for(s, a).stake == stake_in(s, a),
        entry_for(s, a).payout == payout_in(s, a),
    decreases s.len(),
{
    if s[0].account@ != a {
        lemma_entry_for_props(s.skip(1), a);
    }
}

/// Every row's account is recorded.
pub proof fn lemma_row_has_account(s: Seq<BetEntry>, i: int)
    requires
        0 <= i < s.len(),
    ensures
        has_account(s, s[i].account@),
    decreases i,
{
    if i > 0 {
        lemma_row_has_account(s.skip(1), i - 1);
    }
}

/// A weight that reads off each row's stake sums to the stake total.
pub proof fn lemma_sum_weights_stakes(s: Seq<BetEntry>, w: spec_fn(BetEntry) -> int)
    requires
        forall|i: int| 0 <= i < s.len() ==> w(#[trigger] s[i]) == s[i].stake,
    ensures
        sum_weights(s, w) == sum_stakes(s),
    decreases s.len(),
{
    if s.len() > 0 {
        assert forall|i: int| 0 <= i < s.skip(1).len() implies w(#[trigger] s.skip(1)[i])
            == s.skip(1)[i].stake by {
            assert(s.skip(1)[i] == s[i + 1]);
        }
        lemma_sum_weights_stakes(s.skip(1), w);
    }
}

/// A weight that reads off each row's locked payout sums to the payout
/// total.
pub proof fn lemma_sum_weights_payouts(s: Seq<BetEntry>, w: spec_fn(BetEntry) -> int)
    requires
        forall|i: int| 0 <= i < s.len() ==> w(#[trigger] s[i]) == s[i].payout,
    ensures
        sum_weights(s, w) == sum_payouts(s),
    decreases s.len(),
{
    if s.len() > 0 {
        assert forall|i: int| 0 <= i < s.skip(1).len() implies w(#[trigger] s.skip(1)[i])
            == s.skip(1)[i].payout by {
            assert(s.skip(1)[i] == s[i + 1]);
        }
        lemma_sum_weights_payouts(s.skip(1), w);
    }
}

/// All sums of non-negative weights are non-negative, and a lookup never
/// exceeds the corresponding sum.
pub proof fn lemma_sums_nonneg(s: Seq<BetEntry>)
    ensures
        sum_stakes(s) >= 0,
        sum_payouts(s) >= 0,
    decreases s.len(),
{
    if s.len() > 0 {
        lemma_sums_nonneg(s.skip(1));
    }
}

/// One account's stake and payout are bounded by the table's sums.
pub proof fn lemma_lookup_le_sum(s: Seq<BetEntry>, a: Seq<char>)
    ensures
        stake_in(s, a) <= sum_stakes(s),
        payout_in(s, a) <= sum_payouts(s),
    decreases s.len(),
{
    if s.len() > 0 {
        lemma_lookup_le_sum(s.skip(1), a);
        lemma_sums_nonneg(s.skip(1));
    }
}

/// Replacing the first row for an account (with a row for the same
/// account) changes exactly that account's lookups, and shifts the sums by
/// the difference.
pub proof fn lemma_update_row(s: Seq<BetEntry>, i: int, e: BetEntry)
    requires
        0 <= i < s.len(),
        e.account@ == s[i].account@,
        forall|j: int| 0 <= j < i ==> (#[trigger] s[j]).account@ != s[i].account@,
    ensures
        stake_in(s.update(i, e), e.account@) == e.stake,
        payout_in(s.update(i, e), e.account@) == e.payout,
        forall|b: Seq<char>|
            b != e.account@ ==> #[trigger] stake_in(s.update(i, e), b) == stake_in(s, b),
        forall|b: Seq<char>|
            b != e.account@ ==> #[trigger] payout_in(s.update(i, e), b) == payout_in(s, b),
        forall|b: Seq<char>|
            #[trigger] has_account(s.update(i, e), b) == has_account(s, b),
        sum_stakes(s.update(i, e)) == sum_stakes(s) - s[i].stake + e.stake,
        sum_payouts(s.update(i, e)) == sum_payouts(s) - s[i].payout + e.payout,
    decreases i,
{
    let u = s.update(i, e);
    if i == 0 {
        assert(u.skip(1) =~= s.skip(1));
        assert(u[0] == e);
        assert forall|b: Seq<char>|
            b != e.account@ implies #[trigger] stake_in(u, b) == stake_in(s, b) by {
            assert(stake_in(u, b) == stake_in(u.skip(1), b));
            assert(stake_in(s, b) == stake_in(s.skip(1), b));
        }
        assert forall|b: Seq<char>|
            b != e.account@ implies #[trigger] payout_in(u, b) == payout_in(s, b) by {
            assert(payout_in(u, b) == payout_in(u.skip(1), b));
            assert(payout_in(s, b) == payout_in(s.skip(1), b));
        }
        assert forall|b: Seq<char>|
            #[trigger] has_account(u, b) == has_account(s, b) by {
            assert(has_account(u, b) == (e.account@ == b || has_account(u.skip(1), b)));
            assert(has_account(s, b) == (s[0].account@ == b || has_account(
                s.skip(1),
                b,
            )));
        }
    } else {
        assert(u.skip(1) =~= s.skip(1).update(i - 1, e));
        assert(u[0] == s[0]);
        assert forall|j: int| 0 <= j < i - 1 implies (#[trigger] s.skip(1)[j]).account@
            != s.skip(1)[i - 1].account@ by {
            assert(s.skip(1)[j] == s[j + 1]);
            assert(s.skip(1)[i - 1] == s[i]);
        }
        lemma_update_row(s.skip(1), i - 1, e);
        assert forall|b: Seq<char>|
            b != e.account@ implies #[trigger] stake_in(u, b) == stake_in(s, b) by {
            assert(stake_in(u.skip(1), b) == stake_in(s.skip(1), b));
        }
        assert forall|b: Seq<char>|
            b != e.account@ implies #[trigger] payout_in(u, b) == payout_in(s, b) by {
            assert(payout_in(u.skip(1), b) == payout_in(s.skip(1), b));
        }
        assert forall|b: Seq<char>|
            #[trigger] has_account(u, b) == has_account(s, b) by {
            assert(has_account(u.skip(1), b) == has_account(s.skip(1), b));
        }
        assert(stake_in(u, e.account@) == e.stake);
        assert(payout_in(u, e.account@) == e.payout);
    }
}

/// Appending a row for a fresh account adds exactly that account, and adds
/// its stake and payout to the sums.
pub proof fn lemma_push_row(s: Seq<BetEntry>, e: BetEntry)
    requires
        !has_account(s, e.account@),
    ensures
        stake_in(s.push(e), e.account@) == e.stake,
        payout_in(s.push(e), e.account@) == e.payout,
        forall|b: Seq<char>|
            b != e.account@ ==> #[trigger] stake_in(s.push(e), b) == stake_in(s, b),
        forall|b: Seq<char>|
            b != e.account@ ==> #[trigger] payout_in(s.push(e), b) == payout_in(s, b),
        forall|b: Seq<char>|
            #[trigger] has_account(s.push(e), b) == (has_account(s, b) || b == e.account@),
        sum_stakes(s.push(e)) == sum_stakes(s) + e.stake,
        sum_payouts(s.push(e)) == sum_payouts(s) + e.payout,
    decreases s.len(),
{
    let u = s.push(e);
    assert(u[0] == if s.len() == 0 { e } else { s[0] });
    if s.len() == 0 {
        assert(u.skip(1) =~= Seq::<BetEntry>::empty());
        assert(sum_stakes(u.skip(1)) == 0);
        assert(sum_payouts(u.skip(1)) == 0);
        assert forall|b: Seq<char>|
            b != e.account@ implies #[trigger] stake_in(u, b) == stake_in(s, b) by {
            assert(stake_in(u, b) == stake_in(u.skip(1), b));
            assert(stake_in(u.skip(1), b) == 0);
        }
        assert forall|b: Seq<char>|
            b != e.account@ implies #[trigger] payout_in(u, b) == payout_in(s, b) by {
            assert(payout_in(u, b) == payout_in(u.skip(1), b));
            assert(payout_in(u.skip(1), b) == 0);
        }
        assert forall|b: Seq<char>|
            #[trigger] has_account(u, b) == (has_account(s, b) || b == e.account@) by {
            assert(has_account(u.skip(1), b) == false);
        }
    } else {
        assert(u.skip(1) =~= s.skip(1).push(e));
        lemma_push_row(s.skip(1), e);
        assert forall|b: Seq<char>|
            b != e.account@ implies #[trigger] stake_in(u, b) == stake_in(s, b) by {
            assert(stake_in(u.skip(1), b) == stake_in(s.skip(1), b));
        }
        assert forall|b: Seq<char>|
            b != e.account@ implies #[trigger] payout_in(u, b) == payout_in(s, b) by {
            assert(payout_in(u.skip(1), b) == payout_in(s.skip(1), b));
        }
        assert forall|b: Seq<char>|
            #[trigger] has_account(u, b) == (has_account(s, b) || b == e.account@) by {
            assert(has_account(u.skip(1), b) == (has_account(s.skip(1), b) || b
                == e.account@));
        }
        assert(stake_in(u, e.account@) == e.stake);
        assert(payout_in(u, e.account@) == e.payout);
    }
}

/// Sums only look at each row's account and weight: pointwise-agreeing
/// predicates and weights give equal sums.
pub proof fn lemma_sum_unclaimed_ext(
    s: Seq<BetEntry>,
    c1: spec_fn(Seq<char>) -> bool,
    c2: spec_fn(Seq<char>) -> bool,
    w1: spec_fn(BetEntry) -> int,
    w2: spec_fn(BetEntry) -> int,
)
    requires
        forall|i: int|
            0 <= i < s.len() ==> c1((#[trigger] s[i]).account@) == c2(s[i].account@),
        forall|i: int| 0 <= i < s.len() ==> w1(#[trigger] s[i]) == w2(s[i]),
    ensures
        sum_unclaimed(s, c1, w1) == sum_unclaimed(s, c2, w2),
    decreases s.len(),
{
    if s.len() > 0 {
        assert forall|i: int| 0 <= i < s.skip(1).len() implies c1(
            (#[trigger] s.skip(1)[i]).account@,
        ) == c2(s.skip(1)[i].account@) && w1(s.skip(1)[i]) == w2(s.skip(1)[i]) by {
            assert(s.skip(1)[i] == s[i + 1]);
        }
        lemma_sum_unclaimed_ext(s.skip(1), c1, c2, w1, w2);
    }
}

/// A weight sum over pointwise-agreeing weights is unchanged.
pub proof fn lemma_sum_weights_ext(
    s: Seq<BetEntry>,
    w1: spec_fn(BetEntry) -> int,
    w2: spec_fn(BetEntry) -> int,
)
    requires
        forall|i: int| 0 <= i < s.len() ==> w1(#[trigger] s[i]) == w2(s[i]),
    ensures
        sum_weights(s, w1) == sum_weights(s, w2),
    decreases s.len(),
{
    if s.len() > 0 {
        assert forall|i: int| 0 <= i < s.skip(1).len() implies w1(#[trigger] s.skip(1)[i])
            == w2(s.skip(1)[i]) by {
            assert(s.skip(1)[i] == s[i + 1]);
        }
        lemma_sum_weights_ext(s.skip(1), w1, w2);
    }
}

/// When nothing is claimed the unclaimed sum is the whole weight sum.
pub proof fn lemma_sum_unclaimed_full(
    s: Seq<BetEntry>,
    c: spec_fn(Seq<char>) -> bool,
    w: spec_fn(BetEntry) -> int,
)
    requires
        forall|i: int| 0 <= i < s.len() ==> !c((#[trigger] s[i]).account@),
    ensures
        sum_unclaimed(s, c, w) == sum_weights(s, w),
    decreases s.len(),
{
    if s.len() > 0 {
        assert forall|i: int| 0 <= i < s.skip(1).len() implies !c(
            (#[trigger] s.skip(1)[i]).account@,
        ) by {
            assert(s.skip(1)[i] == s[i + 1]);
        }
        lemma_sum_unclaimed_full(s.skip(1), c, w);
    }
}

/// When every row's account has claimed, nothing remains unclaimed.
pub proof fn lemma_sum_unclaimed_empty(
    s: Seq<BetEntry>,
    c: spec_fn(Seq<char>) -> bool,
    w: spec_fn(BetEntry) -> int,
)
    requires
        forall|i: int| 0 <= i < s.len() ==> c((#[trigger] s[i]).account@),
    ensures
        sum_unclaimed(s, c, w) == 0,
    decreases s.len(),
{
    if s.len() > 0 {
        assert forall|i: int| 0 <= i < s.skip(1).len() implies c(
            (#[trigger] s.skip(1)[i]).account@,
        ) by {
            assert(s.skip(1)[i] == s[i + 1]);
        }
        lemma_sum_unclaimed_empty(s.skip(1), c, w);
    }
}

/// The unclaimed sum of non-negative weights lies between zero and the
/// full weight sum.
pub proof fn lemma_sum_unclaimed_bounds(
    s: Seq<BetEntry>,
    c: spec_fn(Seq<char>) -> bool,
    w: spec_fn(BetEntry) -> int,
)
    requires
        forall|i: int| 0 <= i < s.len() ==> w(#[trigger] s[i]) >= 0,
    ensures
        0 <= sum_unclaimed(s, c, w),
        sum_unclaimed(s, c, w) <= sum_weights(s, w),
    decreases s.len(),
{
    if s.len() > 0 {
        assert forall|i: int| 0 <= i < s.skip(1).len() implies w(#[trigger] s.skip(1)[i])
            >= 0 by {
            assert(s.skip(1)[i] == s[i + 1]);
        }
        lemma_sum_unclaimed_bounds(s.skip(1), c, w);
    }
}

/// An unclaimed row's weight is itself bounded by the unclaimed sum.
pub proof fn lemma_unclaimed_row_le(
    s: Seq<BetEntry>,
    c: spec_fn(Seq<char>) -> bool,
    w: spec_fn(BetEntry) -> int,
    a: Seq<char>,
)
    requires
        has_account(s, a),
        !c(a),
        forall|i: int| 0 <= i < s.len() ==> w(#[trigger] s[i]) >= 0,
    ensures
        w(entry_for(s, a)) <= sum_unclaimed(s, c, w),
    decreases s.len(),
{
    assert forall|i: int| 0 <= i < s.skip(1).len() implies w(#[trigger] s.skip(1)[i])
        >= 0 by {
        assert(s.skip(1)[i] == s[i + 1]);
    }
    if s[0].account@ == a {
        lemma_sum_unclaimed_bounds(s.skip(1), c, w);
    } else {
        lemma_unclaimed_row_le(s.skip(1), c, w, a);
    }
}

/// Marking one account as claimed removes exactly that account's row
/// weight from the unclaimed sum (or nothing, if it owns no row or had
/// already claimed).
pub proof fn lemma_sum_unclaimed_mark(
    s: Seq<BetEntry>,
    c: spec_fn(Seq<char>) -> bool,
    c2: spec_fn(Seq<char>) -> bool,
    w: spec_fn(BetEntry) -> int,
    a: Seq<char>,
)
    requires
        distinct_accounts(s),
        forall|b: Seq<char>| #[trigger] c2(b) == (c(b) || b == a),
    ensures
        sum_unclaimed(s, c2, w) == sum_unclaimed(s, c, w) - (if has_account(s, a)
            && !c(a) {
            w(entry_for(s, a))
        } else {
            0
        }),
    decreases s.len(),
{
    if s.len() > 0 {
        assert forall|i: int, j: int|
            #![trigger s.skip(1)[i], s.skip(1)[j]]
            0 <= i < j < s.skip(1).len() implies s.skip(1)[i].account@
            != s.skip(1)[j].account@ by {
            assert(s.skip(1)[i] == s[i + 1]);
            assert(s.skip(1)[j] == s[j + 1]);
        }
        lemma_sum_unclaimed_mark(s.skip(1), c, c2, w, a);
        if s[0].account@ == a {
            // By distinctness, no further row is for `a`.
            assert forall|j: int| 0 <= j < s.skip(1).len() implies (#[trigger] s.skip(
                1,
            )[j]).account@ != a by {
                assert(s.skip(1)[j] == s[j + 1]);
            }
            lemma_not_found(s.skip(1), a);
        }
    }
}

/// One outcome pool's account table.
#[derive(Debug)]
pub struct BetLedger {
    entries: Vec<BetEntry>,
}

impl BetLedger {
    /// The rows of the table, in insertion order.
    pub closed spec fn rows(&self) -> Seq<BetEntry> {
        self.entries@
    }

    /// Each account owns at most one row.
    pub open spec fn wf(&self) -> bool {
        distinct_accounts(self.rows())
    }

    /// An empty table.
    pub fn new() -> (r: Self)
        ensures
            r.rows() =~= Seq::<BetEntry>::empty(),
            r.wf(),
    {
        BetLedger { entries: Vec::new() }
    }

    /// How many accounts hold a position.
    pub fn row_count(&self) -> (r: usize)
        ensures
            r == self.rows().len(),
    {
        self.entries.len()
    }

    /// The stake and locked payout recorded for `a` (zeroes if absent).
    pub fn lookup(&self, a: &String) -> (r: (u128, u128))
        ensures
            r.0 == stake_in(self.rows(), a@),
            r.1 == payout_in(self.rows(), a@),
    {
        let n = self.entries.len();
        let mut i: usize = 0;
        while i < n
            invariant
                n == self.entries.len(),
                i <= n,
                forall|j: int| 0 <= j < i ==> (#[trigger] self.entries@[j]).account@ != a@,
            decreases n - i,
        {
            let e = &self.entries[i];
            if e.account == *a {
                proof {
                    lemma_found_at(self.rows(), a@, i as int);
                }
                return (e.stake, e.payout);
            }
            i += 1;
        }
        proof {
            lemma_not_found(self.rows(), a@);
        }
        (0, 0)
    }

    /// Whether `a` holds a position.
    pub fn contains(&self, a: &String) -> (r: bool)
        ensures
            r == has_account(self.rows(), a@),
    {
        let n = self.entries.len();
        let mut i: usize = 0;
        while i < n
            invariant
                n == self.entries.len(),
                i <= n,
                forall|j: int| 0 <= j < i ==> (#[trigger] self.entries@[j]).account@ != a@,
            decreases n - i,
        {
            let e = &self.entries[i];
            if e.account == *a {
                proof {
                    lemma_found_at(self.rows(), a@, i as int);
                }
                return true;
            }
            i += 1;
        }
        proof {
            lemma_not_found(self.rows(), a@);
        }
        false
    }

    /// Add `stake_add` and `payout_add` to `a`'s position, creating the row
    /// on first contact.
    pub fn credit(&mut self, a: &String, stake_add: u128, payout_add: u128)
        requires
            old(self).wf(),
            stake_in(old(self).rows(), a@) + stake_add <= u128::MAX,
            payout_in(old(self).rows(), a@) + payout_add <= u128::MAX,
        ensures
            final(self).wf(),
            stake_in(final(self).rows(), a@) == stake_in(old(self).rows(), a@) + stake_add,
            payout_in(final(self).rows(), a@) == payout_in(old(self).rows(), a@)
                + payout_add,
            forall|b: Seq<char>|
                b != a@ ==> #[trigger] stake_in(final(self).rows(), b) == stake_in(
                    old(self).rows(),
                    b,
                ),
            forall|b: Seq<char>|
                b != a@ ==> #[trigger] payout_in(final(self).rows(), b) == payout_in(
                    old(self).rows(),
                    b,
                ),
            forall|b: Seq<char>|
                #[trigger] has_account(final(self).rows(), b) == (has_account(
                    old(self).rows(),
                    b,
                ) || b == a@),
            sum_stakes(final(self).rows()) == sum_stakes(old(self).rows()) + stake_add,
            sum_payouts(final(self).rows()) == sum_payouts(old(self).rows()) + payout_add,
    {
        let n = self.entries.len();
        let mut i: usize = 0;
        while i < n
            invariant
                n == self.entries.len(),
                i <= n,
                *self == *old(self),
                old(self).wf(),
                stake_in(old(self).rows(), a@) + stake_add <= u128::MAX,
                payout_in(old(self).rows(), a@) + payout_add <= u128::MAX,
                forall|j: int| 0 <= j < i ==> (#[trigger] self.entries@[j]).account@ != a@,
            decreases n - i,
        {
            let e = &self.entries[i];
            if e.account == *a {
                proof {
                    lemma_found_at(self.rows(), a@, i as int);
                }
                let e2 = BetEntry {
                    account: e.account.clone(),
                    stake: e.stake + stake_add,
                    payout: e.payout + payout_add,
                };
                proof {
                    lemma_update_row(self.rows(), i as int, e2);
                }
                self.entries[i] = e2;
                assert forall|p: int, q: int|
                    #![trigger self.rows()[p], self.rows()[q]]
                    0 <= p < q < self.rows().len() implies self.rows()[p].account@
                    != self.rows()[q].account@ by {
                    assert(self.rows()[p].account@ == old(self).rows()[p].account@);
                    assert(self.rows()[q].account@ == old(self).rows()[q].account@);
                }
                return ;
            }
            i += 1;
        }
        proof {
            lemma_not_found(self.rows(), a@);
        }
        let e2 = BetEntry { account: a.clone(), stake: stake_add, payout: payout_add };
        proof {
            lemma_push_row(self.rows(), e2);
        }
        self.entries.push(e2);
        assert forall|p: int, q: int|
            #![trigger self.rows()[p], self.rows()[q]]
            0 <= p < q < self.rows().len() implies self.rows()[p].account@
            != self.rows()[q].account@ by {
            if q < old(self).rows().len() {
            } else {
                assert(self.rows()[q].account@ == a@);
                assert(self.rows()[p] == old(self).rows()[p]);
                if old(self).rows()[p].account@ == a@ {
                    lemma_found_at(old(self).rows(), a@, p);
                }
            }
        }
    }

    /// Every account holding a position, in row order.
    pub fn accounts(&self) -> (r: Vec<String>)
        ensures
            r@.len() == self.rows().len(),
            forall|i: int|
                0 <= i < r@.len() ==> (#[trigger] r@[i])@ == self.rows()[i].account@,
    {
        let mut r: Vec<String> = Vec::new();
        let n = self.entries.len();
        let mut i: usize = 0;
        while i < n
            invariant
                n == self.entries.len(),
                i <= n,
                r@.len() == i,
                forall|j: int|
                    0 <= j < i ==> (#[trigger] r@[j])@ == self.entries@[j].account@,
            decreases n - i,
        {
            r.push(self.entries[i].account.clone());
            i += 1;
        }
        r
    }
}

} // verus!
