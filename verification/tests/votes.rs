use poster::db::{Reply, Statement, VoteTarget};
use poster::votes::{VotePhase, VoteProcedure, VoteStep};

/// A vote table that answers the procedure's statements as the store does.
#[derive(Default)]
struct Table {
    rows: Vec<(u32, u32, u32, i32)>, // item, post, account, vote
    scores: Vec<(u32, i32)>,
}

fn item_of(target: VoteTarget) -> (u32, u32) {
    match target {
        VoteTarget::Post { post_id } => (post_id, post_id),
        VoteTarget::Comment { comment_id, post_id } => (comment_id, post_id),
    }
}

impl Table {
    fn run(&mut self, stmt: &Statement) -> Reply {
        match stmt {
            Statement::CountVotes { target, account_id, vote } => {
                let (item, _) = item_of(*target);
                let n = self
                    .rows
                    .iter()
                    .filter(|r| r.0 == item && r.2 == *account_id && r.3 == *vote)
                    .count();
                Reply::VoteCount(n as i32)
            }
            Statement::DeleteVotes { target, account_id } => {
                let (item, _) = item_of(*target);
                self.rows.retain(|r| !(r.0 == item && r.2 == *account_id));
                Reply::Done
            }
            Statement::AddVote { target, account_id, vote } => {
                let (item, post) = item_of(*target);
                self.rows.push((item, post, *account_id, *vote));
                Reply::Done
            }
            Statement::SumVotes { target } => {
                let (item, _) = item_of(*target);
                let sum: i32 = self.rows.iter().filter(|r| r.0 == item).map(|r| r.3).sum();
                Reply::Score(sum)
            }
            Statement::UpdateScore { target, score } => {
                let (item, _) = item_of(*target);
                self.scores.push((item, *score));
                Reply::Done
            }
            _ => Reply::Done,
        }
    }

    fn vote(&mut self, target: VoteTarget, account: u32, vote: i32) -> i32 {
        let (mut procedure, mut stmt) = VoteProcedure::start(target, account, vote);
        loop {
            let reply = self.run(&stmt);
            match procedure.advance(reply) {
                VoteStep::Run(next) => stmt = next,
                VoteStep::Finished(score) => return score,
                VoteStep::Unexpected => panic!("unexpected reply"),
            }
        }
    }

    fn votes_of(&self, item: u32, account: u32) -> Vec<i32> {
        self.rows.iter().filter(|r| r.0 == item && r.2 == account).map(|r| r.3).collect()
    }
}

#[test]
fn voting_twice_takes_the_vote_back() {
    let mut t = Table::default();
    let post = VoteTarget::Post { post_id: 5 };
    assert_eq!(t.vote(post, 1, 1), 1);
    assert_eq!(t.votes_of(5, 1), vec![1]);
    assert_eq!(t.vote(post, 2, 1), 2);
    assert_eq!(t.vote(post, 1, 1), 1);
    assert_eq!(t.votes_of(5, 1), Vec::<i32>::new());
    assert_eq!(t.votes_of(5, 2), vec![1]);
}

#[test]
fn voting_the_other_way_replaces_the_vote() {
    let mut t = Table::default();
    let comment = VoteTarget::Comment { comment_id: 9, post_id: 3 };
    assert_eq!(t.vote(comment, 4, 1), 1);
    assert_eq!(t.vote(comment, 4, -1), -1);
    assert_eq!(t.votes_of(9, 4), vec![-1]);
    assert_eq!(t.rows, vec![(9, 3, 4, -1)]);
}

#[test]
fn score_is_upvotes_minus_downvotes() {
    let mut t = Table::default();
    let post = VoteTarget::Post { post_id: 1 };
    t.vote(post, 1, 1);
    t.vote(post, 2, 1);
    t.vote(post, 3, 1);
    let score = t.vote(post, 4, -1);
    assert_eq!(score, 3 - 1);
    assert_eq!(t.scores.last(), Some(&(1, 2)));
}

#[test]
fn procedure_runs_the_statements_in_order() {
    let target = VoteTarget::Post { post_id: 7 };
    let (mut p, first) = VoteProcedure::start(target, 3, -1);
    assert!(matches!(first, Statement::CountVotes { account_id: 3, vote: -1, .. }));
    assert_eq!(p.phase, VotePhase::Counting);
    assert!(matches!(p.advance(Reply::VoteCount(0)), VoteStep::Run(Statement::DeleteVotes { .. })));
    assert!(matches!(p.advance(Reply::Done), VoteStep::Run(Statement::AddVote { vote: -1, .. })));
    assert!(matches!(p.advance(Reply::Done), VoteStep::Run(Statement::SumVotes { .. })));
    assert!(matches!(p.advance(Reply::Score(-1)), VoteStep::Run(Statement::UpdateScore { score: -1, .. })));
    assert!(matches!(p.advance(Reply::Done), VoteStep::Finished(-1)));
    assert_eq!(p.phase, VotePhase::Finished { score: -1 });
}

#[test]
fn existing_vote_skips_the_insert() {
    let target = VoteTarget::Post { post_id: 7 };
    let (mut p, _) = VoteProcedure::start(target, 3, 1);
    assert!(matches!(p.advance(Reply::VoteCount(1)), VoteStep::Run(Statement::DeleteVotes { .. })));
    assert!(matches!(p.advance(Reply::Done), VoteStep::Run(Statement::SumVotes { .. })));
}

#[test]
fn mismatched_reply_is_unexpected() {
    let target = VoteTarget::Post { post_id: 7 };
    let (mut p, _) = VoteProcedure::start(target, 3, 1);
    assert!(matches!(p.advance(Reply::Done), VoteStep::Unexpected));
    assert_eq!(p.phase, VotePhase::Counting);
    assert!(matches!(p.advance(Reply::Score(3)), VoteStep::Unexpected));
}

#[test]
fn taking_back_the_last_vote_leaves_score_zero() {
    let mut t = Table::default();
    let post = VoteTarget::Post { post_id: 6 };
    // The author's upvote, stored with the post.
    t.rows.push((6, 6, 2, 1));
    assert_eq!(t.vote(post, 2, 1), 0);
    assert!(t.rows.is_empty());
    assert_eq!(t.scores.last(), Some(&(6, 0)));
}

#[test]
fn voting_twice_from_a_held_vote_restores_votes_and_score() {
    let mut t = Table::default();
    let comment = VoteTarget::Comment { comment_id: 9, post_id: 3 };
    t.vote(comment, 1, -1);
    t.vote(comment, 2, 1);
    t.vote(comment, 3, 1);
    let mut before = t.rows.clone();
    before.sort();
    assert_eq!(t.vote(comment, 2, 1), 0);
    assert_eq!(t.vote(comment, 2, 1), 1);
    let mut after = t.rows.clone();
    after.sort();
    assert_eq!(after, before);
    assert_eq!(t.scores.last(), Some(&(9, 1)));
}
