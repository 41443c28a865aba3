//! The repository state the engine rewrites.
//!
//! The state is the chain of commits reachable from the current tip, tip
//! first and in topological order (every commit stands before all of its
//! ancestors), together with the identity of the tree held by the staged
//! content (the index).  The chain is linear: each commit's sole parent is
//! its successor in the sequence, and the oldest commit has none.
//!
//! A squash of `amount` commits resolves the boundary commit `amount` steps
//! behind the tip, moves the tip there without touching the index (a soft
//! reset), and writes one new commit on top whose tree is the index, whose
//! sole parent is the boundary, and whose message is the supplied one.  The
//! boundary commit and everything behind it keep their identity; on any
//! failure the state is left exactly as it was.

use vstd::prelude::*;
use crate::commit::{Commit, CommitView, spec_first_line, first_line};
use crate::error::SquashError;

verus! {

/// The values of a sequence of commits.
pub open spec fn views(s: Seq<Commit>) -> Seq<CommitView> {
    s.map_values(|c: Commit| c@)
}

/// The values of the commits present in a sequence of walk results, in
/// order: a walk hands back one entry per step, and a step whose commit
/// could not be loaded contributes nothing.
pub open spec fn somes(s: Seq<Option<Commit>>) -> Seq<CommitView>
    decreases s.len(),
{
    if s.len() == 0 {
        Seq::empty()
    } else {
        let rest = somes(s.skip(1));
        match s[0] {
            Some(c) => seq![c@] + rest,
            None => rest,
        }
    }
}

/// Keeps the commits of a walk that could be loaded, in walk order: a step
/// that failed on one commit is skipped silently rather than ending the
/// walk.
pub fn collect_present(items: Vec<Option<Commit>>) -> (r: Vec<Commit>)
    ensures
        views(r@) == somes(items@),
{
    let ghost orig = items@;
    let mut items = items;
    let mut r: Vec<Commit> = Vec::new();
    proof {
        assert(views(r@) + somes(items@) =~= somes(orig));
    }
    while items.len() > 0
        invariant
            views(r@) + somes(items@) == somes(orig),
        decreases items@.len(),
    {
        let ghost before = items@;
        let it = items.remove(0);
        proof {
            assert(items@ =~= before.skip(1));
        }
        match it {
            Some(c) => {
                let ghost prev = r@;
                r.push(c);
                proof {
                    assert(views(r@) =~= views(prev) + seq![c@]);
                    assert(views(prev) + (seq![c@] + somes(items@)) =~= (views(prev) + seq![c@])
                        + somes(items@));
                }
            },
            None => {},
        }
    }
    proof {
        assert(views(r@) =~= somes(orig));
    }
    r
}

/// The mathematical value of a [`RepoState`].
#[verifier::ext_equal]
pub struct RepoView {
    pub history: Seq<CommitView>,
    pub index_tree: u64,
}

impl RepoView {
    /// The chain is linear and complete: each commit's parent list names
    /// exactly its successor, and the oldest commit is a root.
    pub open spec fn wf(self) -> bool {
        &&& (forall|i: int|
            0 <= i < self.history.len() - 1 ==> #[trigger] self.history[i].parents == seq![
                self.history[i + 1].id,
            ])
        &&& (self.history.len() > 0 ==> self.history[self.history.len() - 1].parents.len() == 0)
    }
}

/// The current repository state: the commit chain from the tip, and the
/// identity of the tree the staged content would produce.
pub struct RepoState {
    pub history: Vec<Commit>,
    pub index_tree: u64,
}

impl View for RepoState {
    type V = RepoView;

    open spec fn view(&self) -> RepoView {
        RepoView { history: views(self.history@), index_tree: self.index_tree }
    }
}

/// A bounded walk from the tip: the first `limit` commits of the chain, or
/// the whole chain when it is shorter.
pub open spec fn spec_walk(h: Seq<CommitView>, limit: nat) -> Seq<CommitView> {
    if h.len() <= limit { h } else { h.take(limit as int) }
}

/// The commit written by a squash on a state whose tip is already the
/// boundary: its tree is the index, its parent the current tip (none on an
/// empty history), its summary the first line of its message.
pub open spec fn spec_new_commit(r: RepoView, msg: Seq<char>, new_id: u64, now: i64) -> CommitView {
    CommitView {
        id: new_id,
        parents: if r.history.len() == 0 {
            Seq::empty()
        } else {
            seq![r.history[0].id]
        },
        timestamp: now,
        summary: spec_first_line(msg),
        message: msg,
        tree: r.index_tree,
    }
}

/// The state after a squash of `amount` commits: the absorbed commits are
/// gone, the boundary and its ancestry stand unchanged, and one new commit
/// with the supplied message and the index's tree is the tip.
pub open spec fn spec_squash(
    r: RepoView,
    amount: nat,
    msg: Seq<char>,
    new_id: u64,
    now: i64,
) -> RepoView
    recommends
        amount < r.history.len(),
{
    let reset = RepoView { history: r.history.skip(amount as int), index_tree: r.index_tree };
    RepoView {
        history: seq![spec_new_commit(reset, msg, new_id, now)] + reset.history,
        index_tree: r.index_tree,
    }
}

impl RepoState {
    /// Walks at most `limit` commits from the tip, in topological order.  A
    /// shorter history ends the walk early; it is never an error.
    pub fn walk(&self, limit: usize) -> (r: Vec<Commit>)
        ensures
            views(r@) == spec_walk(self@.history, limit as nat),
    {
        let n = self.history.len();
        let bound: usize = if limit < n {
            limit
        } else {
            n
        };
        let mut r: Vec<Commit> = Vec::new();
        let mut i: usize = 0;
        while i < bound
            invariant
                i <= bound <= self.history@.len(),
                r@.len() == i,
                forall|j: int| 0 <= j < i ==> #[trigger] r@[j]@ == self.history@[j]@,
            decreases bound - i,
        {
            r.push(self.history[i].duplicate());
            i = i + 1;
        }
        proof {
            assert(views(r@) =~= spec_walk(self@.history, limit as nat));
        }
        r
    }

    /// Resolves the boundary commit of a squash of `amount` commits: the
    /// commit exactly `amount` steps behind the tip, which stays as the new
    /// tip's parent.  Returns its position in the chain, or
    /// [`SquashError::InsufficientHistory`] when fewer than `amount + 1`
    /// commits exist: at least one commit must remain to carry the result.
    pub fn find_boundary(&self, amount: usize) -> (r: Result<usize, SquashError>)
        ensures
            r is Ok <==> amount < self@.history.len(),
            r is Ok ==> r->Ok_0 == amount,
            r is Err ==> r->Err_0 == SquashError::InsufficientHistory,
    {
        if amount < self.history.len() {
            Ok(amount)
        } else {
            Err(SquashError::InsufficientHistory)
        }
    }

    /// Moves the tip `count` commits back without touching the index: the
    /// absorbed commits leave the chain, the staged content stays exactly as
    /// it was.
    pub fn soft_reset(&mut self, count: usize)
        requires
            count < old(self)@.history.len(),
        ensures
            final(self)@.history == old(self)@.history.skip(count as int),
            final(self)@.index_tree == old(self)@.index_tree,
    {
        let mut k: usize = 0;
        while k < count
            invariant
                k <= count < old(self)@.history.len() + 1,
                self.history@.len() == old(self).history@.len() - k,
                self.history@ == old(self).history@.skip(k as int),
                self.index_tree == old(self).index_tree,
            decreases count - k,
        {
            self.history.remove(0);
            k = k + 1;
            proof {
                assert(self.history@ =~= old(self).history@.skip(k as int));
            }
        }
        proof {
            assert(self@.history =~= old(self)@.history.skip(count as int));
        }
    }

    /// Writes one new commit on top of the current tip: its tree is exactly
    /// the current index content, its sole parent the current tip (none when
    /// the history is empty), its summary the first line of `message`, its
    /// timestamp `now`.  Returns the new commit's identity.
    pub fn commit_with_msg(&mut self, message: &String, new_id: u64, now: i64) -> (r: u64)
        ensures
            r == new_id,
            final(self)@ == (RepoView {
                history: seq![spec_new_commit(old(self)@, message@, new_id, now)]
                    + old(self)@.history,
                index_tree: old(self)@.index_tree,
            }),
    {
        let mut parents: Vec<u64> = Vec::new();
        if self.history.len() > 0 {
            parents.push(self.history[0].id);
        }
        let c = Commit {
            id: new_id,
            parents,
            timestamp: now,
            summary: first_line(message.as_str()),
            message: message.clone(),
            tree: self.index_tree,
        };
        self.history.insert(0, c);
        proof {
            assert(self@.history =~= seq![spec_new_commit(old(self)@, message@, new_id, now)]
                + old(self)@.history);
        }
        new_id
    }

    /// Collapses the `amount` most recent commits into one commit carrying
    /// `message`, preserving the staged content.  On success the returned
    /// identity is `new_id` and the state is exactly
    /// [`spec_squash`] of the old one; with fewer than `amount + 1` commits
    /// the call fails with [`SquashError::InsufficientHistory`] and the
    /// state is untouched.
    pub fn squash(&mut self, amount: usize, message: &String, new_id: u64, now: i64) -> (r: Result<
        u64,
        SquashError,
    >)
        requires
            old(self)@.wf(),
            message@.len() <= crate::MAX_MESSAGE_LENGTH,
        ensures
            r is Ok <==> amount < old(self)@.history.len(),
            r is Ok ==> r->Ok_0 == new_id,
            r is Ok ==> final(self)@ == spec_squash(old(self)@, amount as nat, message@, new_id, now),
            r is Ok ==> final(self)@.wf(),
            r is Err ==> *final(self) == *old(self) && r->Err_0 == SquashError::InsufficientHistory,
    {
        let boundary = match self.find_boundary(amount) {
            Ok(b) => b,
            Err(e) => {
                return Err(e);
            },
        };
        self.soft_reset(boundary);
        let id = self.commit_with_msg(message, new_id, now);
        proof {
            assert(self@ =~= spec_squash(old(self)@, amount as nat, message@, new_id, now));
            lemma_squash_preserves_wf(old(self)@, amount as nat, message@, new_id, now);
        }
        Ok(id)
    }
}

/// A squash keeps the chain linear: the new tip's sole parent is the
/// boundary commit, and everything from the boundary on is untouched.
pub proof fn lemma_squash_preserves_wf(
    r: RepoView,
    amount: nat,
    msg: Seq<char>,
    new_id: u64,
    now: i64,
)
    requires
        r.wf(),
        amount < r.history.len(),
    ensures
        spec_squash(r, amount, msg, new_id, now).wf(),
{
    let s = spec_squash(r, amount, msg, new_id, now);
    assert(s.history.len() == r.history.len() - amount + 1);
    assert forall|i: int| 0 <= i < s.history.len() - 1 implies #[trigger] s.history[i].parents
        == seq![s.history[i + 1].id] by {
        if i == 0 {
            assert(s.history[0].parents =~= seq![r.history[amount as int].id]);
        } else {
            assert(s.history[i] == r.history[amount + i - 1]);
            assert(s.history[i + 1] == r.history[amount + i]);
            assert(r.history[amount + i - 1].parents == seq![r.history[amount + i].id]);
        }
    }
    assert(s.history[s.history.len() - 1] == r.history[r.history.len() - 1]);
}

/// The effect of a successful squash, stated of the state value alone: the
/// ancestry shrinks by exactly `amount - 1` commits (one new commit replaces
/// `amount` old ones), the new tip carries the supplied message and the
/// index's tree — so when the index held the old tip's tree, no file content
/// is lost — its sole parent is the boundary commit, and the boundary with
/// its whole ancestry, as well as the index, stand unchanged.
pub proof fn lemma_squash_effect(r: RepoView, amount: nat, msg: Seq<char>, new_id: u64, now: i64)
    requires
        r.wf(),
        amount < r.history.len(),
    ensures
        spec_squash(r, amount, msg, new_id, now).history.len() == r.history.len() - amount + 1,
        spec_squash(r, amount, msg, new_id, now).history[0].message == msg,
        spec_squash(r, amount, msg, new_id, now).history[0].tree == r.index_tree,
        r.index_tree == r.history[0].tree ==> spec_squash(r, amount, msg, new_id, now).history[0].tree
            == r.history[0].tree,
        spec_squash(r, amount, msg, new_id, now).history[0].parents == seq![
            r.history[amount as int].id,
        ],
        spec_squash(r, amount, msg, new_id, now).history.skip(1) == r.history.skip(amount as int),
        spec_squash(r, amount, msg, new_id, now).index_tree == r.index_tree,
{
    let s = spec_squash(r, amount, msg, new_id, now);
    assert(s.history[0].parents =~= seq![r.history[amount as int].id]);
    assert(s.history.skip(1) =~= r.history.skip(amount as int));
}

} // verus!
