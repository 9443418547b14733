//! The claim guard: the record of accounts that have already been paid.
//! A flag, once set, is never reset.

use vstd::prelude::*;

verus! {

/// Whether `a` appears among the recorded claimants.
pub open spec fn claimed_in(s: Seq<String>, a: Seq<char>) -> bool
    decreases s.len(),
{
    if s.len() == 0 {
        false
    } else {
        s[0]@ == a || claimed_in(s.skip(1), a)
    }
}

/// Appending a claimant marks exactly that account.
pub proof fn lemma_claimed_push(s: Seq<String>, x: String, b: Seq<char>)
    ensures
        claimed_in(s.push(x), b) == (claimed_in(s, b) || x@ == b),
    decreases s.len(),
{
    assert(s.push(x)[0] == if s.len() == 0 { x } else { s[0] });
    if s.len() == 0 {
        assert(s.push(x).skip(1) =~= Seq::<String>::empty());
        lemma_claimed_not_found(s.push(x).skip(1), b);
    } else {
        assert(s.push(x).skip(1) =~= s.skip(1).push(x));
        lemma_claimed_push(s.skip(1), x, b);
    }
}

/// If rows `0..i` are not `a` and row `i` is, then `a` has claimed.
pub proof fn lemma_claimed_found_at(s: Seq<String>, a: Seq<char>, i: int)
    requires
        0 <= i < s.len(),
        s[i]@ == a,
    ensures
        claimed_in(s, a),
    decreases i,
{
    if i > 0 {
        lemma_claimed_found_at(s.skip(1), a, i - 1);
    }
}

/// If no row is `a`, then `a` has not claimed.
pub proof fn lemma_claimed_not_found(s: Seq<String>, a: Seq<char>)
    requires
        forall|j: int| 0 <= j < s.len() ==> (#[trigger] s[j])@ != a,
    ensures
        !claimed_in(s, a),
    decreases s.len(),
{
    if s.len() > 0 {
        lemma_claimed_not_found(s.skip(1), a);
    }
}

/// The record of accounts already paid.
#[derive(Debug)]
pub struct ClaimSet {
    accounts: Vec<String>,
}

impl ClaimSet {
    /// The recorded claimants, in order of payment.
    pub closed spec fn rows(&self) -> Seq<String> {
        self.accounts@
    }

    /// Whether `a` has already claimed.
    pub open spec fn spec_claimed(&self, a: Seq<char>) -> bool {
        claimed_in(self.rows(), a)
    }

    /// An empty record.
    pub fn new() -> (r: Self)
        ensures
            r.rows() =~= Seq::<String>::empty(),
            forall|b: Seq<char>| !(#[trigger] r.spec_claimed(b)),
    {
        let r = ClaimSet { accounts: Vec::new() };
        proof {
            assert forall|b: Seq<char>| !(#[trigger] r.spec_claimed(b)) by {
                lemma_claimed_not_found(r.rows(), b);
            }
        }
        r
    }

    /// Whether `a` has already claimed.
    pub fn contains(&self, a: &String) -> (r: bool)
        ensures
            r == self.spec_claimed(a@),
    {
        let n = self.accounts.len();
        let mut i: usize = 0;
        while i < n
            invariant
                n == self.accounts.len(),
                i <= n,
                forall|j: int| 0 <= j < i ==> (#[trigger] self.accounts@[j])@ != a@,
            decreases n - i,
        {
            let e = &self.accounts[i];
            if *e == *a {
                proof {
                    lemma_claimed_found_at(self.rows(), a@, i as int);
                }
                return true;
            }
            i += 1;
        }
        proof {
            lemma_claimed_not_found(self.rows(), a@);
        }
        false
    }

    /// Mark `a` as paid.
    pub fn record(&mut self, a: &String)
        ensures
            forall|b: Seq<char>|
                #[trigger] final(self).spec_claimed(b) == (old(self).spec_claimed(b) || b
                    == a@),
    {
        proof {
            assert forall|b: Seq<char>|
                #[trigger] claimed_in(old(self).rows().push(*a), b) == (old(
                    self,
                ).spec_claimed(b) || b == a@) by {
                lemma_claimed_push(old(self).rows(), *a, b);
            }
        }
        self.accounts.push(a.clone());
    }
}

} // verus!
