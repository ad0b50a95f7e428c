//! Round-robin assignment of input items to a fixed pool of workers.
use vstd::prelude::*;

verus! {

/// Hands out worker indices in turn: the `k`-th item dispatched (from 0)
/// goes to worker `k % n_workers`.
pub struct RoundRobin {
    n_workers: usize,
    next: usize,
    dispatched: Ghost<nat>,
}

impl RoundRobin {
    pub closed spec fn workers(&self) -> nat {
        self.n_workers as nat
    }

    /// How many items were dispatched so far.
    pub closed spec fn dispatched(&self) -> nat {
        self.dispatched@
    }

    pub closed spec fn wf(&self) -> bool {
        &&& self.n_workers > 0
        &&& self.next == self.dispatched@ % (self.n_workers as nat)
    }

    /// A dispatcher over `n_workers` workers that has dispatched nothing.
    pub fn new(n_workers: usize) -> (r: RoundRobin)
        requires
            n_workers > 0,
        ensures
            r.wf(),
            r.workers() == n_workers,
            r.dispatched() == 0,
    {
        proof {
            vstd::arithmetic::div_mod::lemma_small_mod(0, n_workers as nat);
        }
        RoundRobin { n_workers, next: 0, dispatched: Ghost(0) }
    }

    pub fn n_workers(&self) -> (r: usize)
        ensures
            r == self.workers(),
    {
        self.n_workers
    }

    /// The worker that the next item goes to.
    pub fn next_worker(&mut self) -> (w: usize)
        requires
            old(self).wf(),
        ensures
            final(self).wf(),
            final(self).workers() == old(self).workers(),
            final(self).dispatched() == old(self).dispatched() + 1,
            w as nat == old(self).dispatched() % old(self).workers(),
            w < old(self).workers(),
    {
        let w = self.next;
        proof {
            let n = self.n_workers as int;
            let d = self.dispatched@ as int;
            vstd::arithmetic::div_mod::lemma_fundamental_div_mod(d, n);
            vstd::arithmetic::div_mod::lemma_mod_bound(d, n);
            let q = d / n;
            if w + 1 < n {
                assert(d + 1 == q * n + (w + 1)) by (nonlinear_arith)
                    requires d == n * q + w;
                vstd::arithmetic::div_mod::lemma_fundamental_div_mod_converse(d + 1, n, q, w + 1);
            } else {
                assert(d + 1 == (q + 1) * n + 0) by (nonlinear_arith)
                    requires d == n * q + w, w + 1 == n;
                vstd::arithmetic::div_mod::lemma_fundamental_div_mod_converse(d + 1, n, q + 1, 0);
            }
        }
        self.next = if w + 1 < self.n_workers {
            w + 1
        } else {
            0
        };
        self.dispatched = Ghost(self.dispatched@ + 1);
        w
    }
}

/// How many of the first `t` items go to worker `w` of `n`.
pub open spec fn share(t: nat, n: nat, w: nat) -> nat
    decreases t,
{
    if t == 0 {
        0
    } else {
        share((t - 1) as nat, n, w) + if (t - 1) as nat % n == w {
            1nat
        } else {
            0nat
        }
    }
}

/// The shares of workers `0..m` of `n` among the first `t` items, added up.
pub open spec fn shares_below(t: nat, n: nat, m: nat) -> nat
    decreases m,
{
    if m == 0 {
        0
    } else {
        shares_below(t, n, (m - 1) as nat) + share(t, n, (m - 1) as nat)
    }
}

/// How many of workers `0..m` equal `x`.
spec fn hits_below(x: nat, m: nat) -> nat
    decreases m,
{
    if m == 0 {
        0
    } else {
        hits_below(x, (m - 1) as nat) + if x == (m - 1) as nat {
            1nat
        } else {
            0nat
        }
    }
}

proof fn lemma_hits_below(x: nat, m: nat)
    ensures
        hits_below(x, m) == if x < m {
            1nat
        } else {
            0nat
        },
    decreases m,
{
    if m > 0 {
        lemma_hits_below(x, (m - 1) as nat);
    }
}

proof fn lemma_shares_none(n: nat, m: nat)
    ensures
        shares_below(0, n, m) == 0,
    decreases m,
{
    if m > 0 {
        lemma_shares_none(n, (m - 1) as nat);
    }
}

proof fn lemma_shares_step(t: nat, n: nat, m: nat)
    requires
        n > 0,
    ensures
        shares_below(t + 1, n, m) == shares_below(t, n, m) + hits_below(t % n, m),
    decreases m,
{
    if m > 0 {
        lemma_shares_step(t, n, (m - 1) as nat);
    }
}

/// Dispatching `t` items over `n` workers in turn gives item `i` to worker
/// `i % n`, one of the `n`; no item goes to two workers, and the workers'
/// shares add up to `t`, so no item is lost or handed out twice.
pub proof fn lemma_round_robin_exactly_once(n: nat, t: nat)
    requires
        n > 0,
    ensures
        forall|i: nat| i < t ==> #[trigger] (i % n) < n,
        shares_below(t, n, n) == t,
    decreases t,
{
    assert forall|i: nat| i < t implies #[trigger] (i % n) < n by {
        vstd::arithmetic::div_mod::lemma_mod_bound(i as int, n as int);
    }
    if t > 0 {
        let s = (t - 1) as nat;
        lemma_round_robin_exactly_once(n, s);
        lemma_shares_step(s, n, n);
        vstd::arithmetic::div_mod::lemma_mod_bound(s as int, n as int);
        lemma_hits_below(s % n, n);
        assert(shares_below(t, n, n) == shares_below(s, n, n) + 1);
    } else {
        lemma_shares_none(n, n);
    }
}

} // verus!
