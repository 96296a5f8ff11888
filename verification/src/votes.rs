//! Votes on posts and comments. Each account holds at most one vote on an
//! item; voting again with the same value takes the vote back, voting with
//! the other value replaces it; an item's score is the sum of its votes, that
//! is its upvotes minus its downvotes.
//!
//! The vote tables are modelled as sequences of rows; `VoteProcedure` is the
//! sequence of statements by which a vote is cast, one decision at a time.
use vstd::prelude::*;

use crate::db::{Reply, Statement, VoteTarget};

verus! {

/// A row of a vote table: `account` voted `vote` on `item` (a post or a
/// comment) of the post `post`.
#[derive(Clone, Copy, Debug, PartialEq, Eq, Structural)]
pub struct VoteRow {
    pub item: u32,
    pub post: u32,
    pub account: u32,
    pub vote: i32,
}

/// The rows of `account`'s votes on `item`.
pub open spec fn by_voter(item: u32, account: u32) -> spec_fn(VoteRow) -> bool {
    |r: VoteRow| r.item == item && r.account == account
}

/// The rows other than `account`'s votes on `item`.
pub open spec fn not_by_voter(item: u32, account: u32) -> spec_fn(VoteRow) -> bool {
    |r: VoteRow| !(r.item == item && r.account == account)
}

/// The rows of `account`'s votes on `item` with the value `vote`.
pub open spec fn same_vote(item: u32, account: u32, vote: i32) -> spec_fn(VoteRow) -> bool {
    |r: VoteRow| r.item == item && r.account == account && r.vote == vote
}

/// The votes that `account` holds on `item`.
pub open spec fn votes_by(rows: Seq<VoteRow>, item: u32, account: u32) -> Seq<VoteRow> {
    rows.filter(by_voter(item, account))
}

/// How many of `account`'s votes on `item` have the value `vote` (what the
/// vote-exists statement counts).
pub open spec fn count_same_votes(rows: Seq<VoteRow>, item: u32, account: u32, vote: i32) -> nat {
    rows.filter(same_vote(item, account, vote)).len()
}

/// The table after the delete statement: `account`'s votes on `item` gone.
pub open spec fn clear_votes(rows: Seq<VoteRow>, item: u32, account: u32) -> Seq<VoteRow> {
    rows.filter(not_by_voter(item, account))
}

/// The vote table after `account` votes `vote` on `target`: a vote of the same
/// value is taken back; otherwise the account's votes on the item are replaced
/// by this one.
pub open spec fn toggle_vote(rows: Seq<VoteRow>, target: VoteTarget, account: u32, vote: i32) -> Seq<
    VoteRow,
> {
    let cleared = clear_votes(rows, target.item(), account);
    if count_same_votes(rows, target.item(), account, vote) > 0 {
        cleared
    } else {
        cleared.push(VoteRow { item: target.item(), post: target.post(), account, vote })
    }
}

/// The sum of the votes on `item`.
pub open spec fn vote_total(rows: Seq<VoteRow>, item: u32) -> int
    decreases rows.len(),
{
    if rows.len() == 0 {
        0
    } else {
        vote_total(rows.drop_last(), item) + if rows.last().item == item {
            rows.last().vote as int
        } else {
            0
        }
    }
}

/// Whether any vote on `item` is in the table.
pub open spec fn has_votes_on(rows: Seq<VoteRow>, item: u32) -> bool {
    exists|i: int| 0 <= i < rows.len() && #[trigger] rows[i].item == item
}

/// The number of upvotes (`+1`) on `item`.
pub open spec fn upvotes(rows: Seq<VoteRow>, item: u32) -> nat {
    rows.filter(|r: VoteRow| r.item == item && r.vote == 1).len()
}

/// The number of downvotes (`-1`) on `item`.
pub open spec fn downvotes(rows: Seq<VoteRow>, item: u32) -> nat {
    rows.filter(|r: VoteRow| r.item == item && r.vote == -1).len()
}

/// Every vote in the table is an upvote or a downvote.
pub open spec fn votes_are_unit(rows: Seq<VoteRow>) -> bool {
    forall|i: int| 0 <= i < rows.len() ==> (#[trigger] rows[i]).vote == 1 || rows[i].vote == -1
}

/// No account holds more than one vote on an item.
pub open spec fn one_vote_each(rows: Seq<VoteRow>) -> bool {
    forall|item: u32, account: u32| #[trigger] votes_by(rows, item, account).len() <= 1
}

/// Where a vote procedure stands.
#[derive(Clone, Copy, Debug, PartialEq, Eq, Structural)]
pub enum VotePhase {
    /// Waiting for the count of the account's votes of the same value.
    Counting,
    /// Waiting for the account's votes to be deleted; `existed` records
    /// whether a vote of the same value was among them.
    Clearing { existed: bool },
    /// Waiting for the new vote to be inserted.
    Inserting,
    /// Waiting for the sum of the votes on the item.
    Summing,
    /// Waiting for the new score to be stored.
    Storing { score: i32 },
    /// Done; the item's score is `score`.
    Finished { score: i32 },
}

/// What the procedure asks for next.
#[derive(Debug)]
pub enum VoteStep {
    /// Run this statement and hand back its reply.
    Run(Statement),
    /// The vote is cast; the item's new score.
    Finished(i32),
    /// The reply does not fit the statement that was asked for.
    Unexpected,
}

/// Casting `vote` by `account_id` on `target`, statement by statement.
#[derive(Debug)]
pub struct VoteProcedure {
    pub target: VoteTarget,
    pub account_id: u32,
    pub vote: i32,
    pub phase: VotePhase,
}

impl VoteProcedure {
    /// The phase and step that follow `reply` in the current phase.
    pub open spec fn next(self, reply: Reply) -> (VotePhase, VoteStep) {
        match (self.phase, reply) {
            (VotePhase::Counting, Reply::VoteCount(count)) => (
                VotePhase::Clearing { existed: count != 0 },
                VoteStep::Run(
                    Statement::DeleteVotes { target: self.target, account_id: self.account_id },
                ),
            ),
            (VotePhase::Clearing { existed }, Reply::Done) => if existed {
                (VotePhase::Summing, VoteStep::Run(Statement::SumVotes { target: self.target }))
            } else {
                (
                    VotePhase::Inserting,
                    VoteStep::Run(
                        Statement::AddVote {
                            target: self.target,
                            account_id: self.account_id,
                            vote: self.vote,
                        },
                    ),
                )
            },
            (VotePhase::Inserting, Reply::Done) => (
                VotePhase::Summing,
                VoteStep::Run(Statement::SumVotes { target: self.target }),
            ),
            (VotePhase::Summing, Reply::Score(score)) => (
                VotePhase::Storing { score },
                VoteStep::Run(Statement::UpdateScore { target: self.target, score }),
            ),
            (VotePhase::Storing { score }, Reply::Done) => (
                VotePhase::Finished { score },
                VoteStep::Finished(score),
            ),
            _ => (self.phase, VoteStep::Unexpected),
        }
    }

    /// Begins casting `vote` by `account_id` on `target`: the first statement
    /// counts the account's votes of the same value on the item.
    pub fn start(target: VoteTarget, account_id: u32, vote: i32) -> (r: (VoteProcedure, Statement))
        ensures
            r.0 == (VoteProcedure { target, account_id, vote, phase: VotePhase::Counting }),
            r.1 == (Statement::CountVotes { target, account_id, vote }),
    {
        (
            VoteProcedure { target, account_id, vote, phase: VotePhase::Counting },
            Statement::CountVotes { target, account_id, vote },
        )
    }

    /// Takes the reply to the last statement and says what comes next: after
    /// the count, delete the account's votes on the item; insert the new vote
    /// unless one of the same value existed (which takes the vote back); sum
    /// the votes; store the sum as the item's score; finish with that score.
    pub fn advance(&mut self, reply: Reply) -> (step: VoteStep)
        ensures
            (final(self).phase, step) == old(self).next(reply),
            final(self).target == old(self).target,
            final(self).account_id == old(self).account_id,
            final(self).vote == old(self).vote,
            old(self).phase == VotePhase::Counting && reply is VoteCount ==> step == VoteStep::Run(
                Statement::DeleteVotes { target: old(self).target, account_id: old(self).account_id },
            ),
            old(self).phase == (VotePhase::Clearing { existed: true }) && reply == Reply::Done
                ==> step == VoteStep::Run(Statement::SumVotes { target: old(self).target }),
            old(self).phase == (VotePhase::Clearing { existed: false }) && reply == Reply::Done
                ==> step == VoteStep::Run(
                Statement::AddVote {
                    target: old(self).target,
                    account_id: old(self).account_id,
                    vote: old(self).vote,
                },
            ),
            old(self).phase == VotePhase::Inserting && reply == Reply::Done ==> step
                == VoteStep::Run(Statement::SumVotes { target: old(self).target }),
            old(self).phase == VotePhase::Summing ==> (reply matches Reply::Score(score) ==> step
                == VoteStep::Run(Statement::UpdateScore { target: old(self).target, score })),
    {
        match (self.phase, reply) {
            (VotePhase::Counting, Reply::VoteCount(count)) => {
                self.phase = VotePhase::Clearing { existed: count != 0 };
                VoteStep::Run(Statement::DeleteVotes { target: self.target, account_id: self.account_id })
            },
            (VotePhase::Clearing { existed }, Reply::Done) => {
                if existed {
                    self.phase = VotePhase::Summing;
                    VoteStep::Run(Statement::SumVotes { target: self.target })
                } else {
                    self.phase = VotePhase::Inserting;
                    VoteStep::Run(
                        Statement::AddVote {
                            target: self.target,
                            account_id: self.account_id,
                            vote: self.vote,
                        },
                    )
                }
            },
            (VotePhase::Inserting, Reply::Done) => {
                self.phase = VotePhase::Summing;
                VoteStep::Run(Statement::SumVotes { target: self.target })
            },
            (VotePhase::Summing, Reply::Score(score)) => {
                self.phase = VotePhase::Storing { score };
                VoteStep::Run(Statement::UpdateScore { target: self.target, score })
            },
            (VotePhase::Storing { score }, Reply::Done) => {
                self.phase = VotePhase::Finished { score };
                VoteStep::Finished(score)
            },
            _ => VoteStep::Unexpected,
        }
    }
}

/// The tables of one kind of item (posts, or comments): the vote rows and
/// the score stored with each item.
pub struct ItemTables {
    pub votes: Seq<VoteRow>,
    pub scores: Map<u32, i32>,
}

/// The reply that the tables give to a statement, and the tables after it.
/// An insert of a new item stores it under `fresh_id` with the statement's
/// score; the sum of no votes is zero; statements on other tables leave these
/// alone.
pub open spec fn store_reply(t: ItemTables, stmt: Statement, fresh_id: u32) -> (ItemTables, Reply) {
    match stmt {
        Statement::CountVotes { target, account_id, vote } => (
            t,
            Reply::VoteCount(count_same_votes(t.votes, target.item(), account_id, vote) as i32),
        ),
        Statement::DeleteVotes { target, account_id } => (
            ItemTables { votes: clear_votes(t.votes, target.item(), account_id), scores: t.scores },
            Reply::Done,
        ),
        Statement::AddVote { target, account_id, vote } => (
            ItemTables {
                votes: t.votes.push(
                    VoteRow { item: target.item(), post: target.post(), account: account_id, vote },
                ),
                scores: t.scores,
            },
            Reply::Done,
        ),
        Statement::SumVotes { target } => (t, Reply::Score(vote_total(t.votes, target.item()) as i32)),
        Statement::UpdateScore { target, score } => (
            ItemTables { votes: t.votes, scores: t.scores.insert(target.item(), score) },
            Reply::Done,
        ),
        Statement::AddPost { score, .. } => (
            ItemTables { votes: t.votes, scores: t.scores.insert(fresh_id, score) },
            Reply::NewId(fresh_id),
        ),
        Statement::AddCommentToPost { score, .. } => (
            ItemTables { votes: t.votes, scores: t.scores.insert(fresh_id, score) },
            Reply::NewId(fresh_id),
        ),
        Statement::AddCommentToComment { score, .. } => (
            ItemTables { votes: t.votes, scores: t.scores.insert(fresh_id, score) },
            Reply::NewId(fresh_id),
        ),
        _ => (t, Reply::Done),
    }
}

/// Every stored score is the sum of its item's votes.
pub open spec fn scores_match_votes(t: ItemTables) -> bool {
    forall|i: u32| #[trigger] t.scores.dom().contains(i) ==> t.scores[i] == vote_total(t.votes, i)
}

/// Runs a vote procedure against tables that answer every statement
/// truthfully, for at most `fuel` statements: the tables and the score it
/// finishes with.
pub open spec fn run_vote(p: VoteProcedure, t: ItemTables, stmt: Statement, fuel: nat) -> Option<
    (ItemTables, i32),
>
    decreases fuel,
{
    if fuel == 0 {
        None
    } else {
        let (t2, reply) = store_reply(t, stmt, 0);
        let (phase2, step) = p.next(reply);
        match step {
            VoteStep::Run(s) => run_vote(VoteProcedure { phase: phase2, ..p }, t2, s, (fuel - 1) as nat),
            VoteStep::Finished(score) => Some((t2, score)),
            VoteStep::Unexpected => None,
        }
    }
}

/// The procedure that casts `vote` by `account` on `target`, at its start.
pub open spec fn vote_start(target: VoteTarget, account: u32, vote: i32) -> VoteProcedure {
    VoteProcedure { target, account_id: account, vote, phase: VotePhase::Counting }
}

/// Casting `vote` by `account` on `target` against truthful tables.
pub open spec fn cast_vote(t: ItemTables, target: VoteTarget, account: u32, vote: i32) -> Option<
    (ItemTables, i32),
> {
    run_vote(
        vote_start(target, account, vote),
        t,
        Statement::CountVotes { target, account_id: account, vote },
        5,
    )
}

// ---------------------------------------------------------------------------
// Laws of voting
// ---------------------------------------------------------------------------

proof fn lemma_filter_step(rows: Seq<VoteRow>, p: spec_fn(VoteRow) -> bool)
    requires
        rows.len() > 0,
    ensures
        rows.filter(p) == if p(rows.last()) {
            rows.drop_last().filter(p).push(rows.last())
        } else {
            rows.drop_last().filter(p)
        },
{
    reveal(Seq::filter);
}

proof fn lemma_filter_push(rows: Seq<VoteRow>, x: VoteRow, p: spec_fn(VoteRow) -> bool)
    ensures
        rows.push(x).filter(p) == if p(x) {
            rows.filter(p).push(x)
        } else {
            rows.filter(p)
        },
{
    lemma_filter_step(rows.push(x), p);
    assert(rows.push(x).drop_last() =~= rows);
}

/// A filter that nothing passes is empty; one that everything passes keeps
/// the whole sequence.
proof fn lemma_filter_extremes(rows: Seq<VoteRow>, p: spec_fn(VoteRow) -> bool)
    ensures
        (forall|i: int| 0 <= i < rows.len() ==> !p(#[trigger] rows[i])) ==> rows.filter(p)
            == Seq::<VoteRow>::empty(),
        (forall|i: int| 0 <= i < rows.len() ==> p(#[trigger] rows[i])) ==> rows.filter(p) == rows,
        rows.filter(p).len() == 0 ==> (forall|i: int| 0 <= i < rows.len() ==> !p(#[trigger] rows[i])),
    decreases rows.len(),
{
    if rows.len() > 0 {
        let dl = rows.drop_last();
        lemma_filter_extremes(dl, p);
        lemma_filter_step(rows, p);
        assert forall|i: int| 0 <= i < dl.len() implies #[trigger] dl[i] == rows[i] by {}
        if forall|i: int| 0 <= i < rows.len() ==> p(#[trigger] rows[i]) {
            assert(forall|i: int| 0 <= i < dl.len() ==> p(#[trigger] dl[i]));
            assert(p(rows[rows.len() - 1]));
            assert(dl.push(rows.last()) =~= rows);
        }
        if forall|i: int| 0 <= i < rows.len() ==> !p(#[trigger] rows[i]) {
            assert(forall|i: int| 0 <= i < dl.len() ==> !p(#[trigger] dl[i]));
            assert(!p(rows[rows.len() - 1]));
        }
        if rows.filter(p).len() == 0 {
            assert(!p(rows.last()));
            assert forall|i: int| 0 <= i < rows.len() implies !p(#[trigger] rows[i]) by {
                if i < rows.len() - 1 {
                    assert(rows[i] == dl[i]);
                }
            }
        }
    } else {
        reveal(Seq::filter);
    }
}

/// After the delete statement the account holds no vote on the item, and
/// everyone else's votes are as they were.
proof fn lemma_clear_votes(rows: Seq<VoteRow>, item: u32, account: u32, item2: u32, account2: u32)
    ensures
        votes_by(clear_votes(rows, item, account), item, account) == Seq::<VoteRow>::empty(),
        !(item2 == item && account2 == account) ==> votes_by(
            clear_votes(rows, item, account),
            item2,
            account2,
        ) == votes_by(rows, item2, account2),
    decreases rows.len(),
{
    let c = clear_votes(rows, item, account);
    if rows.len() == 0 {
        reveal(Seq::filter);
        assert(c =~= rows);
    } else {
        let dl = rows.drop_last();
        let x = rows.last();
        lemma_clear_votes(dl, item, account, item2, account2);
        lemma_filter_step(rows, not_by_voter(item, account));
        lemma_filter_step(rows, by_voter(item2, account2));
        let cd = clear_votes(dl, item, account);
        if not_by_voter(item, account)(x) {
            lemma_filter_push(cd, x, by_voter(item, account));
            lemma_filter_push(cd, x, by_voter(item2, account2));
        }
    }
}

/// Every element of a filter comes from the filtered sequence.
proof fn lemma_filter_subset(rows: Seq<VoteRow>, p: spec_fn(VoteRow) -> bool, k: int)
    requires
        0 <= k < rows.filter(p).len(),
    ensures
        exists|i: int| 0 <= i < rows.len() && #[trigger] rows[i] == rows.filter(p)[k],
        p(rows.filter(p)[k]),
    decreases rows.len(),
{
    lemma_filter_step(rows, p);
    let dl = rows.drop_last();
    if p(rows.last()) && k == rows.filter(p).len() - 1 {
        assert(rows[rows.len() - 1] == rows.filter(p)[k]);
    } else {
        assert(rows.filter(p)[k] == dl.filter(p)[k]);
        lemma_filter_subset(dl, p, k);
        let i = choose|i: int| 0 <= i < dl.len() && #[trigger] dl[i] == dl.filter(p)[k];
        assert(rows[i] == dl[i]);
    }
}


/// Voting the value one already holds takes the vote back: afterwards the
/// account holds no vote on the item.
pub proof fn lemma_same_vote_taken_back(rows: Seq<VoteRow>, target: VoteTarget, account: u32, vote: i32)
    requires
        count_same_votes(rows, target.item(), account, vote) > 0,
    ensures
        votes_by(toggle_vote(rows, target, account, vote), target.item(), account).len() == 0,
{
    lemma_clear_votes(rows, target.item(), account, target.item(), account);
}

/// Voting a value one does not hold leaves exactly that vote as the account's
/// only vote on the item.
pub proof fn lemma_new_vote_replaces(rows: Seq<VoteRow>, target: VoteTarget, account: u32, vote: i32)
    requires
        count_same_votes(rows, target.item(), account, vote) == 0,
    ensures
        votes_by(toggle_vote(rows, target, account, vote), target.item(), account) == seq![
            VoteRow { item: target.item(), post: target.post(), account, vote },
        ],
{
    let item = target.item();
    let row = VoteRow { item, post: target.post(), account, vote };
    lemma_clear_votes(rows, item, account, item, account);
    lemma_filter_push(clear_votes(rows, item, account), row, by_voter(item, account));
    assert(Seq::<VoteRow>::empty().push(row) =~= seq![row]);
}

/// A vote changes no other account's votes, nor the account's votes on other
/// items.
pub proof fn lemma_vote_leaves_other_votes(
    rows: Seq<VoteRow>,
    target: VoteTarget,
    account: u32,
    vote: i32,
    item2: u32,
    account2: u32,
)
    requires
        !(item2 == target.item() && account2 == account),
    ensures
        votes_by(toggle_vote(rows, target, account, vote), item2, account2) == votes_by(
            rows,
            item2,
            account2,
        ),
{
    let item = target.item();
    let row = VoteRow { item, post: target.post(), account, vote };
    lemma_clear_votes(rows, item, account, item2, account2);
    lemma_filter_push(clear_votes(rows, item, account), row, by_voter(item2, account2));
}

/// Toggling twice with the same value, from no vote, gives back the rows as
/// they were.
proof fn lemma_toggle_twice_restores_rows(rows: Seq<VoteRow>, target: VoteTarget, account: u32, vote: i32)
    requires
        votes_by(rows, target.item(), account).len() == 0,
    ensures
        toggle_vote(toggle_vote(rows, target, account, vote), target, account, vote) == rows,
{
    let item = target.item();
    let row = VoteRow { item, post: target.post(), account, vote };
    lemma_filter_extremes(rows, by_voter(item, account));
    assert forall|i: int| 0 <= i < rows.len() implies not_by_voter(item, account)(#[trigger] rows[i]) by {
        assert(!by_voter(item, account)(rows[i]));
    }
    lemma_filter_extremes(rows, not_by_voter(item, account));
    assert(clear_votes(rows, item, account) == rows);
    lemma_filter_extremes(rows, same_vote(item, account, vote));
    assert forall|i: int| 0 <= i < rows.len() implies !same_vote(item, account, vote)(
        #[trigger] rows[i],
    ) by {
        assert(!by_voter(item, account)(rows[i]));
    }
    assert(count_same_votes(rows, item, account, vote) == 0);
    let once = rows.push(row);
    assert(toggle_vote(rows, target, account, vote) == once);
    lemma_filter_push(rows, row, same_vote(item, account, vote));
    assert(count_same_votes(once, item, account, vote) > 0);
    lemma_filter_push(rows, row, not_by_voter(item, account));
}

/// No account ever holds two votes on one item.
pub proof fn lemma_vote_keeps_one_vote_each(rows: Seq<VoteRow>, target: VoteTarget, account: u32, vote: i32)
    requires
        one_vote_each(rows),
    ensures
        one_vote_each(toggle_vote(rows, target, account, vote)),
{
    let t = toggle_vote(rows, target, account, vote);
    assert forall|item2: u32, account2: u32| #[trigger] votes_by(t, item2, account2).len() <= 1 by {
        if item2 == target.item() && account2 == account {
            if count_same_votes(rows, target.item(), account, vote) > 0 {
                lemma_same_vote_taken_back(rows, target, account, vote);
            } else {
                lemma_new_vote_replaces(rows, target, account, vote);
            }
        } else {
            lemma_vote_leaves_other_votes(rows, target, account, vote, item2, account2);
            assert(votes_by(rows, item2, account2).len() <= 1);
        }
    }
}

/// Votes cast as upvotes or downvotes keep every vote in the table one of
/// the two.
pub proof fn lemma_vote_keeps_unit_votes(rows: Seq<VoteRow>, target: VoteTarget, account: u32, vote: i32)
    requires
        votes_are_unit(rows),
        vote == 1 || vote == -1,
    ensures
        votes_are_unit(toggle_vote(rows, target, account, vote)),
{
    let item = target.item();
    let c = clear_votes(rows, item, account);
    assert forall|k: int| 0 <= k < c.len() implies (#[trigger] c[k]).vote == 1 || c[k].vote == -1 by {
        lemma_filter_subset(rows, not_by_voter(item, account), k);
    }
    let t = toggle_vote(rows, target, account, vote);
    assert forall|k: int| 0 <= k < t.len() implies (#[trigger] t[k]).vote == 1 || t[k].vote == -1 by {
        if k < c.len() {
            assert(t[k] == c[k]);
        }
    }
}

/// An item's score is its number of upvotes minus its number of downvotes.
pub proof fn lemma_score_is_upvotes_minus_downvotes(rows: Seq<VoteRow>, item: u32)
    requires
        votes_are_unit(rows),
    ensures
        vote_total(rows, item) == upvotes(rows, item) - downvotes(rows, item),
    decreases rows.len(),
{
    reveal(Seq::filter);
    if rows.len() > 0 {
        let dl = rows.drop_last();
        assert(votes_are_unit(dl)) by {
            assert forall|i: int| 0 <= i < dl.len() implies (#[trigger] dl[i]).vote == 1 || dl[i].vote
                == -1 by {
                assert(dl[i] == rows[i]);
            }
        }
        lemma_score_is_upvotes_minus_downvotes(dl, item);
        assert(rows.last() == rows[rows.len() - 1]);
    }
}

/// Casting a vote through the procedure, against tables that answer each
/// statement truthfully, leaves the votes toggled and stores the item's new
/// score, the sum of its votes (zero when none is left), and finishes with
/// it; no other item's score changes. The count and the sum must fit an
/// `i32`, the type they are read as.
pub proof fn lemma_vote_procedure(t: ItemTables, target: VoteTarget, account: u32, vote: i32)
    requires
        count_same_votes(t.votes, target.item(), account, vote) <= i32::MAX,
        i32::MIN <= vote_total(toggle_vote(t.votes, target, account, vote), target.item())
            <= i32::MAX,
    ensures
        cast_vote(t, target, account, vote) == Some(
            (
                ItemTables {
                    votes: toggle_vote(t.votes, target, account, vote),
                    scores: t.scores.insert(
                        target.item(),
                        vote_total(toggle_vote(t.votes, target, account, vote), target.item())
                            as i32,
                    ),
                },
                vote_total(toggle_vote(t.votes, target, account, vote), target.item()) as i32,
            ),
        ),
{
    reveal_with_fuel(run_vote, 6);
    let n = count_same_votes(t.votes, target.item(), account, vote);
    assert((n as i32 != 0) == (n > 0));
}


/// An item without votes sums to zero.
pub(crate) proof fn lemma_vote_total_without_votes(rows: Seq<VoteRow>, item: u32)
    requires
        !has_votes_on(rows, item),
    ensures
        vote_total(rows, item) == 0,
    decreases rows.len(),
{
    if rows.len() > 0 {
        let dl = rows.drop_last();
        assert(!has_votes_on(dl, item)) by {
            if has_votes_on(dl, item) {
                let i = choose|i: int| 0 <= i < dl.len() && #[trigger] dl[i].item == item;
                assert(rows[i].item == item);
            }
        }
        lemma_vote_total_without_votes(dl, item);
        assert(rows.last() == rows[rows.len() - 1]);
    }
}

proof fn lemma_vote_total_push(rows: Seq<VoteRow>, x: VoteRow, i: u32)
    ensures
        vote_total(rows.push(x), i) == vote_total(rows, i) + if x.item == i {
            x.vote as int
        } else {
            0
        },
{
    assert(rows.push(x).drop_last() =~= rows);
}

/// The sum on an item splits into the votes that `account` holds on `item`
/// and the rest; the account's votes on `item` add nothing to other items.
proof fn lemma_vote_total_split(rows: Seq<VoteRow>, item: u32, account: u32, i: u32)
    ensures
        vote_total(rows, i) == vote_total(clear_votes(rows, item, account), i) + vote_total(
            votes_by(rows, item, account),
            i,
        ),
        i != item ==> vote_total(votes_by(rows, item, account), i) == 0,
    decreases rows.len(),
{
    if rows.len() == 0 {
        reveal(Seq::filter);
    } else {
        let dl = rows.drop_last();
        let x = rows.last();
        lemma_vote_total_split(dl, item, account, i);
        lemma_filter_step(rows, not_by_voter(item, account));
        lemma_filter_step(rows, by_voter(item, account));
        if by_voter(item, account)(x) {
            lemma_vote_total_push(votes_by(dl, item, account), x, i);
        } else {
            lemma_vote_total_push(clear_votes(dl, item, account), x, i);
        }
    }
}

/// The count of an account's votes of one value is at most the number of its
/// votes on the item, and all of them when they all have that value.
proof fn lemma_count_same_votes(rows: Seq<VoteRow>, item: u32, account: u32, vote: i32)
    ensures
        count_same_votes(rows, item, account, vote) <= votes_by(rows, item, account).len(),
        (forall|k: int|
            0 <= k < votes_by(rows, item, account).len() ==> (#[trigger] votes_by(
                rows,
                item,
                account,
            )[k]).vote == vote) ==> count_same_votes(rows, item, account, vote) == votes_by(
            rows,
            item,
            account,
        ).len(),
    decreases rows.len(),
{
    if rows.len() == 0 {
        reveal(Seq::filter);
    } else {
        let dl = rows.drop_last();
        let vb = votes_by(rows, item, account);
        let vbd = votes_by(dl, item, account);
        lemma_count_same_votes(dl, item, account, vote);
        lemma_filter_step(rows, same_vote(item, account, vote));
        lemma_filter_step(rows, by_voter(item, account));
        if forall|k: int| 0 <= k < vb.len() ==> (#[trigger] vb[k]).vote == vote {
            assert forall|k: int| 0 <= k < vbd.len() implies (#[trigger] vbd[k]).vote == vote by {
                assert(vb[k] == vbd[k]);
            }
            if by_voter(item, account)(rows.last()) {
                assert(vb[vb.len() - 1] == rows.last());
            }
        }
    }
}

/// A vote changes the sum of no other item.
proof fn lemma_vote_leaves_other_totals(
    rows: Seq<VoteRow>,
    target: VoteTarget,
    account: u32,
    vote: i32,
    i: u32,
)
    requires
        i != target.item(),
    ensures
        vote_total(toggle_vote(rows, target, account, vote), i) == vote_total(rows, i),
{
    let item = target.item();
    lemma_vote_total_split(rows, item, account, i);
    lemma_vote_total_push(
        clear_votes(rows, item, account),
        VoteRow { item, post: target.post(), account, vote },
        i,
    );
}

/// Casting a vote through the procedure keeps every stored score the sum of
/// its item's votes; the voted item's score is that sum (zero once no vote on
/// it is left), which with upvotes and downvotes is its upvotes minus its
/// downvotes, and the procedure finishes with it. The count and the sum must
/// fit an `i32`, the type they are read as.
pub proof fn lemma_vote_keeps_scores(t: ItemTables, target: VoteTarget, account: u32, vote: i32)
    requires
        scores_match_votes(t),
        count_same_votes(t.votes, target.item(), account, vote) <= i32::MAX,
        i32::MIN <= vote_total(toggle_vote(t.votes, target, account, vote), target.item())
            <= i32::MAX,
    ensures
        ({
            let r = cast_vote(t, target, account, vote);
            let item = target.item();
            &&& r is Some
            &&& scores_match_votes(r.unwrap().0)
            &&& r.unwrap().0.scores.dom().contains(item)
            &&& r.unwrap().1 == r.unwrap().0.scores[item]
            &&& !has_votes_on(r.unwrap().0.votes, item) ==> r.unwrap().0.scores[item] == 0
            &&& votes_are_unit(t.votes) && (vote == 1 || vote == -1) ==> r.unwrap().0.scores[item]
                == upvotes(r.unwrap().0.votes, item) - downvotes(r.unwrap().0.votes, item)
        }),
{
    let item = target.item();
    let toggled = toggle_vote(t.votes, target, account, vote);
    lemma_vote_procedure(t, target, account, vote);
    let r = cast_vote(t, target, account, vote).unwrap();
    assert forall|i: u32| #[trigger] r.0.scores.dom().contains(i) implies r.0.scores[i] == vote_total(
        r.0.votes,
        i,
    ) by {
        if i != item {
            lemma_vote_leaves_other_totals(t.votes, target, account, vote, i);
        }
    }
    if !has_votes_on(toggled, item) {
        lemma_vote_total_without_votes(toggled, item);
    }
    if votes_are_unit(t.votes) && (vote == 1 || vote == -1) {
        lemma_vote_keeps_unit_votes(t.votes, target, account, vote);
        lemma_score_is_upvotes_minus_downvotes(toggled, item);
    }
}

/// Voting twice with the same value, from no vote on the item or from a vote
/// of that value, gives every account back its votes on every item, every
/// item its sum, and the item its score, the sum of its votes, which is what
/// the second vote finishes with. From no vote the table is back as it was.
/// The sums must fit an `i32`, the type they are read as.
pub proof fn lemma_vote_twice_restores(t: ItemTables, target: VoteTarget, account: u32, vote: i32)
    requires
        votes_by(t.votes, target.item(), account).len() == 0 || votes_by(
            t.votes,
            target.item(),
            account,
        ) == seq![VoteRow { item: target.item(), post: target.post(), account, vote }],
        i32::MIN <= vote_total(toggle_vote(t.votes, target, account, vote), target.item())
            <= i32::MAX,
        i32::MIN <= vote_total(t.votes, target.item()) <= i32::MAX,
    ensures
        ({
            let item = target.item();
            let once = cast_vote(t, target, account, vote);
            let twice = cast_vote(once.unwrap().0, target, account, vote);
            &&& once is Some
            &&& twice is Some
            &&& forall|item2: u32, account2: u32| #[trigger]
                votes_by(twice.unwrap().0.votes, item2, account2) == votes_by(
                    t.votes,
                    item2,
                    account2,
                )
            &&& forall|i: u32| #[trigger]
                vote_total(twice.unwrap().0.votes, i) == vote_total(t.votes, i)
            &&& twice.unwrap().1 == vote_total(t.votes, item) as i32
            &&& twice.unwrap().0.scores == t.scores.insert(item, vote_total(t.votes, item) as i32)
            &&& t.scores.dom().contains(item) && t.scores[item] == vote_total(t.votes, item)
                ==> twice.unwrap().0.scores == t.scores
            &&& votes_by(t.votes, item, account).len() == 0 ==> twice.unwrap().0.votes == t.votes
        }),
{
    let item = target.item();
    let row = VoteRow { item, post: target.post(), account, vote };
    let rows = t.votes;
    let once_rows = toggle_vote(rows, target, account, vote);
    let twice_rows = toggle_vote(once_rows, target, account, vote);
    lemma_count_same_votes(rows, item, account, vote);
    if votes_by(rows, item, account).len() == 0 {
        lemma_toggle_twice_restores_rows(rows, target, account, vote);
        lemma_new_vote_replaces(rows, target, account, vote);
    } else {
        assert(votes_by(rows, item, account)[0] == row);
        assert(count_same_votes(rows, item, account, vote) == 1);
        lemma_same_vote_taken_back(rows, target, account, vote);
        lemma_count_same_votes(once_rows, item, account, vote);
        lemma_new_vote_replaces(once_rows, target, account, vote);
        assert forall|item2: u32, account2: u32| #[trigger]
            votes_by(twice_rows, item2, account2) == votes_by(rows, item2, account2) by {
            if !(item2 == item && account2 == account) {
                lemma_vote_leaves_other_votes(rows, target, account, vote, item2, account2);
                lemma_vote_leaves_other_votes(once_rows, target, account, vote, item2, account2);
            }
        }
        assert forall|i: u32| #[trigger] vote_total(twice_rows, i) == vote_total(rows, i) by {
            lemma_vote_total_split(rows, item, account, i);
            lemma_vote_total_split(once_rows, item, account, i);
            lemma_vote_total_push(clear_votes(once_rows, item, account), row, i);
            lemma_vote_total_push(Seq::<VoteRow>::empty(), row, i);
            assert(Seq::<VoteRow>::empty().push(row) =~= seq![row]);
            reveal(Seq::filter);
        }
    }
    lemma_vote_procedure(t, target, account, vote);
    let t1 = cast_vote(t, target, account, vote).unwrap().0;
    lemma_count_same_votes(once_rows, item, account, vote);
    assert(vote_total(twice_rows, item) == vote_total(rows, item));
    lemma_vote_procedure(t1, target, account, vote);
    let t2 = cast_vote(t1, target, account, vote).unwrap().0;
    assert(t2.scores =~= t.scores.insert(item, vote_total(rows, item) as i32));
    if t.scores.dom().contains(item) && t.scores[item] == vote_total(rows, item) {
        assert(t2.scores =~= t.scores);
    }
}


/// Every statement that a vote procedure asks for is about the vote it was
/// started for: the same target (same kind, post or comment, and same ids),
/// the same account and the same value; the account's votes are cleared
/// only in answer to the count of its votes of that value.
pub proof fn lemma_vote_statements_name_target(p: VoteProcedure, reply: Reply)
    ensures
        p.next(reply).1 matches VoteStep::Run(stmt) ==> match stmt {
            Statement::DeleteVotes { target, account_id } => target == p.target && account_id
                == p.account_id && p.phase == VotePhase::Counting && reply is VoteCount,
            Statement::AddVote { target, account_id, vote } => target == p.target && account_id
                == p.account_id && vote == p.vote,
            Statement::SumVotes { target } => target == p.target,
            Statement::UpdateScore { target, score } => target == p.target && reply == Reply::Score(
                score,
            ),
            _ => false,
        },
{
}

} // verus!
