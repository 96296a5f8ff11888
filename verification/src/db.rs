//! The statements that the site runs against its store, with the values bound
//! to them, and the replies that the store gives. Procedures of the library
//! decide which statement runs next; the program around them runs it (see
//! the constants in `sql`) and hands the reply back.
use vstd::prelude::*;

verus! {

/// What a vote is cast on: a post, or a comment under a post.
#[derive(Clone, Copy, Debug, PartialEq, Eq, Structural)]
pub enum VoteTarget {
    Post { post_id: u32 },
    Comment { comment_id: u32, post_id: u32 },
}

impl VoteTarget {
    /// The id of the post or comment voted on.
    pub open spec fn item(self) -> u32 {
        match self {
            VoteTarget::Post { post_id } => post_id,
            VoteTarget::Comment { comment_id, .. } => comment_id,
        }
    }

    /// The post that the voted item belongs to (the post itself for a post).
    pub open spec fn post(self) -> u32 {
        match self {
            VoteTarget::Post { post_id } => post_id,
            VoteTarget::Comment { post_id, .. } => post_id,
        }
    }
}

/// A statement with its bound values.
#[derive(Debug)]
pub enum Statement {
    /// `FIND_USER_SQL`: counts users with this name and password hash.
    FindUser { id: String, password_hash: String },
    /// `FIND_USER_USERNAME_SQL`: counts users with this name.
    FindUsername { id: String },
    /// `ADD_USER_SQL`.
    AddUser { id: String, password_hash: String },
    /// `FIND_ACCOUNT_DISPLAY_NAME_SQL`: counts accounts with this display name.
    FindDisplayName { display_name: String },
    /// `ADD_ACCOUNT_SQL`.
    AddAccount { display_name: String, user_id: String },
    /// `ADD_POST_SQL`: inserts a post and replies with its new id.
    AddPost { title: String, content: String, date: String, score: i32, account_id: u32 },
    /// `ADD_COMMENT_TO_POST_SQL`: inserts a top-level comment, replies with its id.
    AddCommentToPost { content: String, date: String, score: i32, account_id: u32, post_id: u32 },
    /// `ADD_COMMENT_TO_COMMENT_SQL`: inserts a reply to a comment, replies with its id.
    AddCommentToComment {
        content: String,
        date: String,
        score: i32,
        account_id: u32,
        post_id: u32,
        parent_comment_id: u32,
    },
    /// `POST_VOTE_EXISTS_SQL` / `COMMENT_VOTE_EXISTS_SQL`: counts the votes of
    /// this account with this value on the target.
    CountVotes { target: VoteTarget, account_id: u32, vote: i32 },
    /// `DELETE_POST_VOTE_SQL` / `DELETE_COMMENT_VOTE_SQL`: removes every vote of
    /// this account on the target.
    DeleteVotes { target: VoteTarget, account_id: u32 },
    /// `ADD_POST_VOTE_SQL` / `ADD_COMMENT_VOTE_SQL`.
    AddVote { target: VoteTarget, account_id: u32, vote: i32 },
    /// `CALCULATE_POST_SCORE_SQL` / `CALCULATE_COMMENT_SCORE_SQL`: the sum of
    /// the votes on the target.
    SumVotes { target: VoteTarget },
    /// `UPDATE_POST_SCORE_SQL` / `UPDATE_COMMENT_SCORE_SQL`.
    UpdateScore { target: VoteTarget, score: i32 },
}

/// The store's answer to a statement.
#[derive(Clone, Copy, Debug, PartialEq, Eq, Structural)]
pub enum Reply {
    /// A `found` count of users or accounts.
    Found(u32),
    /// A `count` of votes.
    VoteCount(i32),
    /// The id of an inserted row.
    NewId(u32),
    /// A `score`, the sum of the votes on an item.
    Score(i32),
    /// The statement ran and returns nothing.
    Done,
}

impl Statement {
    /// A copy of this statement with the same bound values.
    pub fn duplicate(&self) -> (r: Statement)
        ensures
            r == *self,
    {
        match self {
            Statement::FindUser { id, password_hash } => Statement::FindUser {
                id: id.clone(),
                password_hash: password_hash.clone(),
            },
            Statement::FindUsername { id } => Statement::FindUsername { id: id.clone() },
            Statement::AddUser { id, password_hash } => Statement::AddUser {
                id: id.clone(),
                password_hash: password_hash.clone(),
            },
            Statement::FindDisplayName { display_name } => Statement::FindDisplayName {
                display_name: display_name.clone(),
            },
            Statement::AddAccount { display_name, user_id } => Statement::AddAccount {
                display_name: display_name.clone(),
                user_id: user_id.clone(),
            },
            Statement::AddPost { title, content, date, score, account_id } => Statement::AddPost {
                title: title.clone(),
                content: content.clone(),
                date: date.clone(),
                score: *score,
                account_id: *account_id,
            },
            Statement::AddCommentToPost { content, date, score, account_id, post_id } =>
                Statement::AddCommentToPost {
                content: content.clone(),
                date: date.clone(),
                score: *score,
                account_id: *account_id,
                post_id: *post_id,
            },
            Statement::AddCommentToComment {
                content,
                date,
                score,
                account_id,
                post_id,
                parent_comment_id,
            } => Statement::AddCommentToComment {
                content: content.clone(),
                date: date.clone(),
                score: *score,
                account_id: *account_id,
                post_id: *post_id,
                parent_comment_id: *parent_comment_id,
            },
            Statement::CountVotes { target, account_id, vote } => Statement::CountVotes {
                target: *target,
                account_id: *account_id,
                vote: *vote,
            },
            Statement::DeleteVotes { target, account_id } => Statement::DeleteVotes {
                target: *target,
                account_id: *account_id,
            },
            Statement::AddVote { target, account_id, vote } => Statement::AddVote {
                target: *target,
                account_id: *account_id,
                vote: *vote,
            },
            Statement::SumVotes { target } => Statement::SumVotes { target: *target },
            Statement::UpdateScore { target, score } => Statement::UpdateScore {
                target: *target,
                score: *score,
            },
        }
    }
}

} // verus!
