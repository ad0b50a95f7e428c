//! Commit batching of a document family's single index writer: commit after
//! every full batch of additions, and once more when the input closes.
use vstd::prelude::*;

use vstd::arithmetic::div_mod::{
    lemma_fundamental_div_mod,
    lemma_fundamental_div_mod_converse,
    lemma_mod_bound,
};

verus! {

/// What arrives on a committer's channel.
#[derive(PartialEq, Eq, Structural, Clone, Copy, Debug)]
pub enum CommitterEvent {
    /// A document to add.
    Document,
    /// The channel closed: no more documents will come.
    Closed,
}

/// What the committer does with its index writer in response.
#[derive(PartialEq, Eq, Structural, Clone, Copy, Debug)]
pub enum CommitterAction {
    /// Add the document.
    Add,
    /// Add the document, then commit: it completes a batch.
    AddAndCommit,
    /// Commit whatever was added since the last commit, then stop.
    FinalCommit,
}

/// The abstract state of a committer.
pub struct CommitterState {
    pub batch_size: nat,
    pub added: nat,
    pub commits: nat,
    pub closed: bool,
}

pub open spec fn initial_state(batch_size: nat) -> CommitterState {
    CommitterState { batch_size, added: 0, commits: 0, closed: false }
}

/// The committer's transition: the new state and the action to perform.
pub open spec fn next_state(s: CommitterState, e: CommitterEvent) -> (CommitterState, CommitterAction) {
    match e {
        CommitterEvent::Document => if (s.added + 1) % s.batch_size == 0 {
            (
                CommitterState { added: s.added + 1, commits: s.commits + 1, ..s },
                CommitterAction::AddAndCommit,
            )
        } else {
            (CommitterState { added: s.added + 1, ..s }, CommitterAction::Add)
        },
        CommitterEvent::Closed => (
            CommitterState { commits: s.commits + 1, closed: true, ..s },
            CommitterAction::FinalCommit,
        ),
    }
}

/// The state after `n` documents, from the initial state.
pub open spec fn after_documents(batch_size: nat, n: nat) -> CommitterState
    decreases n,
{
    if n == 0 {
        initial_state(batch_size)
    } else {
        next_state(after_documents(batch_size, (n - 1) as nat), CommitterEvent::Document).0
    }
}

/// The state after `n` documents and the close of the channel.
pub open spec fn after_stream(batch_size: nat, n: nat) -> CommitterState {
    next_state(after_documents(batch_size, n), CommitterEvent::Closed).0
}

/// The commit decisions of one document family's writer.
pub struct Committer {
    batch_size: usize,
    since_commit: usize,
    state: Ghost<CommitterState>,
}

impl View for Committer {
    type V = CommitterState;

    closed spec fn view(&self) -> CommitterState {
        self.state@
    }
}

impl Committer {
    pub closed spec fn wf(&self) -> bool {
        &&& self.batch_size > 0
        &&& self.state@.batch_size == self.batch_size as nat
        &&& self.since_commit as nat == self.state@.added % (self.batch_size as nat)
    }

    /// A committer that commits after every `batch_size` additions.
    pub fn new(batch_size: usize) -> (r: Committer)
        requires
            batch_size > 0,
        ensures
            r.wf(),
            r@ == initial_state(batch_size as nat),
    {
        proof {
            vstd::arithmetic::div_mod::lemma_small_mod(0, batch_size as nat);
        }
        Committer { batch_size, since_commit: 0, state: Ghost(initial_state(batch_size as nat)) }
    }

    /// Decides what to do on `e`.
    pub fn step(&mut self, e: CommitterEvent) -> (a: CommitterAction)
        requires
            old(self).wf(),
            !old(self)@.closed,
        ensures
            final(self).wf(),
            (final(self)@, a) == next_state(old(self)@, e),
    {
        match e {
            CommitterEvent::Document => {
                let ghost s = self.state@;
                proof {
                    lemma_mod_step(s.added, s.batch_size);
                }
                let completes = self.since_commit + 1 == self.batch_size;
                self.since_commit = if completes {
                    0
                } else {
                    self.since_commit + 1
                };
                if completes {
                    self.state = Ghost(CommitterState { added: s.added + 1, commits: s.commits + 1, ..s });
                    CommitterAction::AddAndCommit
                } else {
                    self.state = Ghost(CommitterState { added: s.added + 1, ..s });
                    CommitterAction::Add
                }
            },
            CommitterEvent::Closed => {
                let ghost s = self.state@;
                self.state = Ghost(CommitterState { commits: s.commits + 1, closed: true, ..s });
                CommitterAction::FinalCommit
            },
        }
    }
}

/// `(a + 1) % b` from `a % b`, and the quotient's step.
proof fn lemma_mod_step(a: nat, b: nat)
    requires
        b > 0,
    ensures
        a % b + 1 < b ==> (a + 1) % b == a % b + 1 && (a + 1) / b == a / b,
        a % b + 1 == b ==> (a + 1) % b == 0 && (a + 1) / b == a / b + 1,
        a % b < b,
{
    lemma_fundamental_div_mod(a as int, b as int);
    lemma_mod_bound(a as int, b as int);
    let q = (a / b) as int;
    let r = (a % b) as int;
    if r + 1 < b {
        assert(a + 1 == q * b + (r + 1)) by (nonlinear_arith)
            requires a == b * q + r;
        lemma_fundamental_div_mod_converse((a + 1) as int, b as int, q, r + 1);
    } else {
        assert(a + 1 == (q + 1) * b + 0) by (nonlinear_arith)
            requires a == b * q + r, r + 1 == b;
        lemma_fundamental_div_mod_converse((a + 1) as int, b as int, q + 1, 0);
    }
}

/// Over a stream of `n` documents, every document is added before the
/// final commit, and the commits number one per full batch plus the final
/// one.
pub proof fn lemma_commits_per_stream(batch_size: nat, n: nat)
    requires
        batch_size > 0,
    ensures
        after_documents(batch_size, n).batch_size == batch_size,
        !after_documents(batch_size, n).closed,
        after_documents(batch_size, n).added == n,
        after_documents(batch_size, n).commits == n / batch_size,
        after_stream(batch_size, n).added == n,
        after_stream(batch_size, n).commits == n / batch_size + 1,
    decreases n,
{
    if n == 0 {
        assert(0nat / batch_size == 0) by (nonlinear_arith)
            requires batch_size > 0;
    } else {
        lemma_commits_per_stream(batch_size, (n - 1) as nat);
        lemma_mod_step((n - 1) as nat, batch_size);
    }
}

/// With batch size `b` over 5, a stream of `2b + 5` documents gives exactly
/// three commits: after the `b`-th and the `2b`-th document, and the final
/// one; all `2b + 5` documents are added before it.
pub proof fn lemma_two_batches_and_a_remainder(b: nat)
    requires
        b > 5,
    ensures
        after_stream(b, 2 * b + 5).commits == 3,
        after_stream(b, 2 * b + 5).added == 2 * b + 5,
        after_documents(b, b).commits == 1,
        after_documents(b, (b - 1) as nat).commits == 0,
        after_documents(b, 2 * b).commits == 2,
        after_documents(b, (2 * b - 1) as nat).commits == 1,
{
    lemma_commits_per_stream(b, 2 * b + 5);
    lemma_commits_per_stream(b, b);
    lemma_commits_per_stream(b, (b - 1) as nat);
    lemma_commits_per_stream(b, 2 * b);
    lemma_commits_per_stream(b, (2 * b - 1) as nat);
    lemma_fundamental_div_mod_converse((2 * b + 5) as int, b as int, 2, 5);
    lemma_fundamental_div_mod_converse(b as int, b as int, 1, 0);
    lemma_fundamental_div_mod_converse((b - 1) as int, b as int, 0, (b - 1) as int);
    lemma_fundamental_div_mod_converse((2 * b) as int, b as int, 2, 0);
    lemma_fundamental_div_mod_converse((2 * b - 1) as int, b as int, 1, (b - 1) as int);
}

} // verus!
