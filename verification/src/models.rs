//! The site's records (users, accounts, posts, comments) and what the site
//! decides about them: how new records start out, which statements store
//! them, and how a viewer's vote is shown.
use vstd::prelude::*;

use crate::db::{Reply, Statement, VoteTarget};
use crate::votes::{
    has_votes_on, lemma_vote_total_without_votes, scores_match_votes, store_reply, vote_total,
    ItemTables, VoteRow,
};
use crate::utils::{hash_password, password_hash};

verus! {

/// A login: the username (the user's key) and the hash of the password.
#[derive(Clone, Debug)]
pub struct User {
    pub id: String,
    pub password_hash: String,
}

/// The public face of a user: a unique display name. `id` is given by the
/// store.
#[derive(Clone, Debug)]
pub struct Account {
    pub id: u32,
    pub display_name: String,
    pub user_id: String,
}

/// A post; `date` is a stored timestamp and `score` its upvotes minus its
/// downvotes.
#[derive(Clone, Debug)]
pub struct Post {
    pub id: u32,
    pub title: String,
    pub content: String,
    pub date: String,
    pub account_id: u32,
    pub score: i32,
}

/// A post as a page shows it: with its author, the viewer's vote, its number
/// of comments and its date as text.
#[derive(Clone, Debug)]
pub struct PostData {
    pub post: Post,
    pub account: Account,
    pub vote_value: i32,
    pub comment_count: u32,
    pub date_string: String,
}

/// A comment on a post, at the top level (`parent_comment_id` is `None`) or
/// in reply to another comment.
#[derive(Clone, Debug)]
pub struct Comment {
    pub id: u32,
    pub content: String,
    pub date: String,
    pub account_id: u32,
    pub post_id: u32,
    pub parent_comment_id: Option<u32>,
    pub score: i32,
}

/// A comment with its replies, as the post page shows it.
pub struct CommentTreeNode {
    pub comment: Comment,
    pub account: Account,
    pub children: Vec<CommentTreeNode>,
    pub vote_value: i32,
    pub date_string: String,
}

/// The vote value shown to a viewer who is not logged in (none of -1, 0, 1).
pub const NOT_LOGGED_IN_VOTE: i32 = -2;

/// The vote value shown to a viewer: `-2` for a viewer who is not logged in
/// (`None`), `0` for a logged-in viewer without a vote, the vote otherwise.
pub open spec fn shown_vote(viewer_vote: Option<Option<i32>>) -> i32 {
    match viewer_vote {
        None => NOT_LOGGED_IN_VOTE,
        Some(None) => 0,
        Some(Some(v)) => v,
    }
}

fn vote_value_for(viewer_vote: Option<Option<i32>>) -> (v: i32)
    ensures
        v == shown_vote(viewer_vote),
{
    match viewer_vote {
        None => NOT_LOGGED_IN_VOTE,
        Some(None) => 0,
        Some(Some(v)) => v,
    }
}

impl User {
    /// A user with this username and the hash of this password.
    pub fn new(username: String, password: String) -> (user: User)
        ensures
            user.id@ == username@,
            user.password_hash@ == password_hash(password@),
    {
        let password_hash = hash_password(password.as_str());
        User { id: username, password_hash }
    }

    /// The statement that looks this user up by name and password hash.
    pub fn exists_statement(&self) -> (s: Statement)
        ensures
            s == (Statement::FindUser { id: self.id, password_hash: self.password_hash }),
    {
        Statement::FindUser { id: self.id.clone(), password_hash: self.password_hash.clone() }
    }

    /// Stores this user unless the same name and password hash are stored
    /// already: looks the user up, then inserts it when the lookup found no
    /// match.
    pub fn add_to_db(&self) -> (r: (InsertUnlessFound, Statement))
        ensures
            r.0 == (InsertUnlessFound {
                insert: Statement::AddUser { id: self.id, password_hash: self.password_hash },
                phase: InsertPhase::Checking,
            }),
            r.1 == (Statement::FindUser { id: self.id, password_hash: self.password_hash }),
    {
        (
            InsertUnlessFound {
                insert: Statement::AddUser {
                    id: self.id.clone(),
                    password_hash: self.password_hash.clone(),
                },
                phase: InsertPhase::Checking,
            },
            self.exists_statement(),
        )
    }
}

/// Whether a lookup's `found` count means the record exists (exactly one
/// match).
pub open spec fn found_means_exists(found: u32) -> bool {
    found == 1
}

/// Where an insert-unless-found procedure stands.
#[derive(Clone, Copy, Debug, PartialEq, Eq, Structural)]
pub enum InsertPhase {
    Checking,
    Inserting,
    Finished,
}

/// What an insert-unless-found procedure asks for next.
#[derive(Debug)]
pub enum InsertStep {
    Run(Statement),
    Finished,
    Unexpected,
}

/// Inserts a record unless a lookup finds it first.
#[derive(Debug)]
pub struct InsertUnlessFound {
    pub insert: Statement,
    pub phase: InsertPhase,
}

impl InsertUnlessFound {
    /// The phase and step that follow `reply`.
    pub open spec fn next(self, reply: Reply) -> (InsertPhase, InsertStep) {
        match (self.phase, reply) {
            (InsertPhase::Checking, Reply::Found(found)) => if found_means_exists(found) {
                (InsertPhase::Finished, InsertStep::Finished)
            } else {
                (InsertPhase::Inserting, InsertStep::Run(self.insert))
            },
            (InsertPhase::Inserting, Reply::Done) => (InsertPhase::Finished, InsertStep::Finished),
            _ => (self.phase, InsertStep::Unexpected),
        }
    }

    /// Takes the reply to the last statement: after the lookup, insert when
    /// nothing was found; after the insert, finish.
    pub fn advance(&mut self, reply: Reply) -> (step: InsertStep)
        ensures
            (final(self).phase, step) == old(self).next(reply),
            final(self).insert == old(self).insert,
    {
        match (self.phase, reply) {
            (InsertPhase::Checking, Reply::Found(found)) => {
                if found == 1 {
                    self.phase = InsertPhase::Finished;
                    InsertStep::Finished
                } else {
                    self.phase = InsertPhase::Inserting;
                    InsertStep::Run(self.insert.duplicate())
                }
            },
            (InsertPhase::Inserting, Reply::Done) => {
                self.phase = InsertPhase::Finished;
                InsertStep::Finished
            },
            _ => InsertStep::Unexpected,
        }
    }
}

impl Account {
    /// A new account of the user `user_id`; the store gives it its id.
    pub fn new(display_name: String, user_id: String) -> (account: Account)
        ensures
            account.id == 0,
            account.display_name == display_name,
            account.user_id == user_id,
    {
        Account { id: 0, display_name, user_id }
    }

    /// Stores this account unless its display name is taken: looks the name
    /// up, then inserts the account when the lookup found no match.
    pub fn add_to_db(&self) -> (r: (InsertUnlessFound, Statement))
        ensures
            r.0 == (InsertUnlessFound {
                insert: Statement::AddAccount {
                    display_name: self.display_name,
                    user_id: self.user_id,
                },
                phase: InsertPhase::Checking,
            }),
            r.1 == (Statement::FindDisplayName { display_name: self.display_name }),
    {
        (
            InsertUnlessFound {
                insert: Statement::AddAccount {
                    display_name: self.display_name.clone(),
                    user_id: self.user_id.clone(),
                },
                phase: InsertPhase::Checking,
            },
            Statement::FindDisplayName { display_name: self.display_name.clone() },
        )
    }
}

/// The score a new post or comment starts with: its author's own upvote.
pub const INITIAL_SCORE: i32 = 1;

/// What a new post or comment is.
#[derive(Clone, Copy, Debug, PartialEq, Eq, Structural)]
pub enum Created {
    Post,
    Comment { post_id: u32 },
}

/// Where a creation procedure stands.
#[derive(Clone, Copy, Debug, PartialEq, Eq, Structural)]
pub enum CreationPhase {
    /// Waiting for the id of the inserted row.
    Inserting,
    /// Waiting for the author's upvote to be stored.
    Upvoting { new_id: u32 },
    /// Waiting for the score update.
    Scoring { new_id: u32 },
    Finished { new_id: u32 },
}

/// What a creation procedure asks for next.
#[derive(Debug)]
pub enum CreationStep {
    Run(Statement),
    /// The record is stored under this id.
    Finished(u32),
    Unexpected,
}

/// Storing a new post or comment: insert it with the initial score, record
/// its author's upvote, then store the initial score on the new row.
#[derive(Debug)]
pub struct CreationProcedure {
    pub created: Created,
    pub account_id: u32,
    pub phase: CreationPhase,
}

/// The vote target of a created record with the given id.
pub open spec fn created_target(created: Created, id: u32) -> VoteTarget {
    match created {
        Created::Post => VoteTarget::Post { post_id: id },
        Created::Comment { post_id } => VoteTarget::Comment { comment_id: id, post_id },
    }
}

fn target_of(created: Created, id: u32) -> (t: VoteTarget)
    ensures
        t == created_target(created, id),
{
    match created {
        Created::Post => VoteTarget::Post { post_id: id },
        Created::Comment { post_id } => VoteTarget::Comment { comment_id: id, post_id },
    }
}

impl CreationProcedure {
    /// The phase and step that follow `reply`.
    pub open spec fn next(self, reply: Reply) -> (CreationPhase, CreationStep) {
        match (self.phase, reply) {
            (CreationPhase::Inserting, Reply::NewId(new_id)) => (
                CreationPhase::Upvoting { new_id },
                CreationStep::Run(
                    Statement::AddVote {
                        target: created_target(self.created, new_id),
                        account_id: self.account_id,
                        vote: INITIAL_SCORE,
                    },
                ),
            ),
            (CreationPhase::Upvoting { new_id }, Reply::Done) => (
                CreationPhase::Scoring { new_id },
                CreationStep::Run(
                    Statement::UpdateScore {
                        target: created_target(self.created, new_id),
                        score: INITIAL_SCORE,
                    },
                ),
            ),
            (CreationPhase::Scoring { new_id }, Reply::Done) => (
                CreationPhase::Finished { new_id },
                CreationStep::Finished(new_id),
            ),
            _ => (self.phase, CreationStep::Unexpected),
        }
    }

    /// Takes the reply to the last statement: after the insert, store the
    /// author's upvote on the new id; then update the score; then finish with
    /// the new id.
    pub fn advance(&mut self, reply: Reply) -> (step: CreationStep)
        ensures
            (final(self).phase, step) == old(self).next(reply),
            final(self).created == old(self).created,
            final(self).account_id == old(self).account_id,
            old(self).phase == CreationPhase::Inserting ==> (reply matches Reply::NewId(id) ==> step
                == CreationStep::Run(
                Statement::AddVote {
                    target: (match old(self).created {
                        Created::Post => VoteTarget::Post { post_id: id },
                        Created::Comment { post_id } => VoteTarget::Comment { comment_id: id, post_id },
                    }),
                    account_id: old(self).account_id,
                    vote: 1,
                },
            )),
            old(self).phase matches CreationPhase::Upvoting { new_id } ==> (reply == Reply::Done
                ==> step == CreationStep::Run(
                Statement::UpdateScore {
                    target: (match old(self).created {
                        Created::Post => VoteTarget::Post { post_id: new_id },
                        Created::Comment { post_id } => VoteTarget::Comment {
                            comment_id: new_id,
                            post_id,
                        },
                    }),
                    score: 1,
                },
            )),
            old(self).phase matches CreationPhase::Scoring { new_id } ==> (reply == Reply::Done
                ==> step == CreationStep::Finished(new_id)),
    {
        match (self.phase, reply) {
            (CreationPhase::Inserting, Reply::NewId(new_id)) => {
                self.phase = CreationPhase::Upvoting { new_id };
                CreationStep::Run(
                    Statement::AddVote {
                        target: target_of(self.created, new_id),
                        account_id: self.account_id,
                        vote: INITIAL_SCORE,
                    },
                )
            },
            (CreationPhase::Upvoting { new_id }, Reply::Done) => {
                self.phase = CreationPhase::Scoring { new_id };
                CreationStep::Run(
                    Statement::UpdateScore {
                        target: target_of(self.created, new_id),
                        score: INITIAL_SCORE,
                    },
                )
            },
            (CreationPhase::Scoring { new_id }, Reply::Done) => {
                self.phase = CreationPhase::Finished { new_id };
                CreationStep::Finished(new_id)
            },
            _ => CreationStep::Unexpected,
        }
    }
}

impl Post {
    /// A new post by `account_id`, starting with a score of one; the store
    /// gives it its id.
    pub fn new(title: String, content: String, date: String, account_id: u32) -> (post: Post)
        ensures
            post.id == 0,
            post.title == title,
            post.content == content,
            post.date == date,
            post.account_id == account_id,
            post.score == INITIAL_SCORE,
    {
        Post { id: 0, title, content, date, score: INITIAL_SCORE, account_id }
    }

    /// Stores this post as a new row with the initial score and its author's
    /// upvote (whatever its own `id` and `score` hold); the procedure finishes
    /// with the post's new id.
    pub fn add_to_db(&self) -> (r: (CreationProcedure, Statement))
        ensures
            r.0 == (CreationProcedure {
                created: Created::Post,
                account_id: self.account_id,
                phase: CreationPhase::Inserting,
            }),
            r.1 == (Statement::AddPost {
                title: self.title,
                content: self.content,
                date: self.date,
                score: INITIAL_SCORE,
                account_id: self.account_id,
            }),
    {
        (
            CreationProcedure {
                created: Created::Post,
                account_id: self.account_id,
                phase: CreationPhase::Inserting,
            },
            Statement::AddPost {
                title: self.title.clone(),
                content: self.content.clone(),
                date: self.date.clone(),
                score: INITIAL_SCORE,
                account_id: self.account_id,
            },
        )
    }

    /// The post as a page shows it. `viewer_vote` is `None` for a viewer who
    /// is not logged in, and otherwise the viewer's vote on the post, if any.
    pub fn into_post_data(
        self,
        account: Account,
        comment_count: u32,
        viewer_vote: Option<Option<i32>>,
        date_string: String,
    ) -> (data: PostData)
        ensures
            data.post == self,
            data.account == account,
            data.comment_count == comment_count,
            data.vote_value == shown_vote(viewer_vote),
            data.date_string == date_string,
    {
        let vote_value = vote_value_for(viewer_vote);
        PostData { post: self, account, vote_value, comment_count, date_string }
    }
}

impl Comment {
    /// A new comment by `account_id` on the post `post_id`, in reply to
    /// `parent_comment_id` if given, starting with a score of one; the store
    /// gives it its id.
    pub fn new(
        content: String,
        date: String,
        account_id: u32,
        post_id: u32,
        parent_comment_id: Option<u32>,
    ) -> (comment: Comment)
        ensures
            comment.id == 0,
            comment.content == content,
            comment.date == date,
            comment.account_id == account_id,
            comment.post_id == post_id,
            comment.parent_comment_id == parent_comment_id,
            comment.score == INITIAL_SCORE,
    {
        Comment {
            id: 0,
            content,
            date,
            score: INITIAL_SCORE,
            account_id,
            post_id,
            parent_comment_id,
        }
    }

    /// Stores this comment as a new row with the initial score and its
    /// author's upvote: as a reply to its parent comment where it has one, else
    /// as a top-level comment on its post.
    pub fn add_to_db(&self) -> (r: (CreationProcedure, Statement))
        ensures
            r.0 == (CreationProcedure {
                created: Created::Comment { post_id: self.post_id },
                account_id: self.account_id,
                phase: CreationPhase::Inserting,
            }),
            r.1 == match self.parent_comment_id {
                Some(parent_comment_id) => Statement::AddCommentToComment {
                    content: self.content,
                    date: self.date,
                    score: INITIAL_SCORE,
                    account_id: self.account_id,
                    post_id: self.post_id,
                    parent_comment_id,
                },
                None => Statement::AddCommentToPost {
                    content: self.content,
                    date: self.date,
                    score: INITIAL_SCORE,
                    account_id: self.account_id,
                    post_id: self.post_id,
                },
            },
    {
        let insert = match self.parent_comment_id {
            Some(parent_comment_id) => Statement::AddCommentToComment {
                content: self.content.clone(),
                date: self.date.clone(),
                score: INITIAL_SCORE,
                account_id: self.account_id,
                post_id: self.post_id,
                parent_comment_id,
            },
            None => Statement::AddCommentToPost {
                content: self.content.clone(),
                date: self.date.clone(),
                score: INITIAL_SCORE,
                account_id: self.account_id,
                post_id: self.post_id,
            },
        };
        (
            CreationProcedure {
                created: Created::Comment { post_id: self.post_id },
                account_id: self.account_id,
                phase: CreationPhase::Inserting,
            },
            insert,
        )
    }

    /// The vote value shown on a comment: `-2` for a viewer who is not logged
    /// in (`None`), `0` for a logged-in viewer without a vote, the vote
    /// otherwise.
    pub fn get_vote_value(viewer_vote: Option<Option<i32>>) -> (v: i32)
        ensures
            v == shown_vote(viewer_vote),
    {
        vote_value_for(viewer_vote)
    }

    /// The node of the comment tree for this comment, over the nodes of its
    /// replies (in the order given).
    pub fn build_comment_tree(
        self,
        account: Account,
        children: Vec<CommentTreeNode>,
        viewer_vote: Option<Option<i32>>,
        date_string: String,
    ) -> (node: CommentTreeNode)
        ensures
            node.comment == self,
            node.account == account,
            node.children@ == children@,
            node.vote_value == shown_vote(viewer_vote),
            node.date_string == date_string,
    {
        let vote_value = vote_value_for(viewer_vote);
        CommentTreeNode { comment: self, account, children, vote_value, date_string }
    }
}

// ---------------------------------------------------------------------------
// Laws
// ---------------------------------------------------------------------------

/// The vote value shown to a viewer tells a visitor who is not logged in
/// apart from every logged-in viewer, as long as votes are upvotes or
/// downvotes.
pub proof fn lemma_shown_vote_marks_anonymous(viewer_vote: Option<Option<i32>>)
    requires
        viewer_vote matches Some(Some(v)) ==> v == 1 || v == -1,
    ensures
        shown_vote(viewer_vote) == NOT_LOGGED_IN_VOTE <==> viewer_vote is None,
        viewer_vote is Some ==> -1 <= shown_vote(viewer_vote) <= 1,
{
}

/// A stored user: its name and password hash.
pub struct UserRow {
    pub id: Seq<char>,
    pub password_hash: Seq<char>,
}

/// The number of stored users with this name and password hash (what the
/// user lookup counts).
pub open spec fn users_matching(users: Seq<UserRow>, id: Seq<char>, hash: Seq<char>) -> nat {
    users.filter(|u: UserRow| u.id == id && u.password_hash == hash).len()
}

/// The number of stored users with this name (what the username lookup
/// counts).
pub open spec fn users_named(users: Seq<UserRow>, id: Seq<char>) -> nat {
    users.filter(|u: UserRow| u.id == id).len()
}

proof fn lemma_users_push(users: Seq<UserRow>, row: UserRow, id: Seq<char>, hash: Seq<char>)
    ensures
        users_matching(users.push(row), id, hash) == users_matching(users, id, hash) + if row.id
            == id && row.password_hash == hash {
            1nat
        } else {
            0nat
        },
        users_named(users.push(row), id) == users_named(users, id) + if row.id == id {
            1nat
        } else {
            0nat
        },
{
    reveal(Seq::filter);
    assert(users.push(row).drop_last() =~= users);
}

proof fn lemma_users_named_bounds_matching(users: Seq<UserRow>, id: Seq<char>, hash: Seq<char>)
    ensures
        users_matching(users, id, hash) <= users_named(users, id),
    decreases users.len(),
{
    reveal(Seq::filter);
    if users.len() > 0 {
        lemma_users_named_bounds_matching(users.drop_last(), id, hash);
    }
}

/// The users table's reply to a statement, and the table after it.
pub open spec fn users_reply(users: Seq<UserRow>, stmt: Statement) -> (Seq<UserRow>, Reply) {
    match stmt {
        Statement::FindUser { id, password_hash } => (
            users,
            Reply::Found(users_matching(users, id@, password_hash@) as u32),
        ),
        Statement::FindUsername { id } => (users, Reply::Found(users_named(users, id@) as u32)),
        Statement::AddUser { id, password_hash } => (
            users.push(UserRow { id: id@, password_hash: password_hash@ }),
            Reply::Done,
        ),
        _ => (users, Reply::Done),
    }
}

/// Runs an insert-unless-found procedure against a users table that answers
/// every statement truthfully, for at most `fuel` statements: the table it
/// leaves.
pub open spec fn run_insert_unless_found(
    p: InsertUnlessFound,
    users: Seq<UserRow>,
    stmt: Statement,
    fuel: nat,
) -> Option<Seq<UserRow>>
    decreases fuel,
{
    if fuel == 0 {
        None
    } else {
        let (users2, reply) = users_reply(users, stmt);
        let (phase2, step) = p.next(reply);
        match step {
            InsertStep::Run(s) => run_insert_unless_found(
                InsertUnlessFound { phase: phase2, ..p },
                users2,
                s,
                (fuel - 1) as nat,
            ),
            InsertStep::Finished => Some(users2),
            InsertStep::Unexpected => None,
        }
    }
}

/// The users table after the procedure of `User::add_to_db` for `user`.
pub open spec fn store_user(users: Seq<UserRow>, user: User) -> Option<Seq<UserRow>> {
    run_insert_unless_found(
        InsertUnlessFound {
            insert: Statement::AddUser { id: user.id, password_hash: user.password_hash },
            phase: InsertPhase::Checking,
        },
        users,
        Statement::FindUser { id: user.id, password_hash: user.password_hash },
        2,
    )
}

/// Storing a user adds its row unless that row is stored already, leaves it
/// stored once, and storing the same user again changes nothing. (Where the
/// username is stored with another password hash, the insert would break the
/// username key; such tables are left out.)
pub proof fn lemma_user_stored_once(users: Seq<UserRow>, user: User)
    requires
        users_named(users, user.id@) <= 1,
        users_named(users, user.id@) == users_matching(users, user.id@, user.password_hash@),
    ensures
        store_user(users, user) == Some(
            if users_matching(users, user.id@, user.password_hash@) == 1 {
                users
            } else {
                users.push(UserRow { id: user.id@, password_hash: user.password_hash@ })
            },
        ),
        users_matching(store_user(users, user).unwrap(), user.id@, user.password_hash@) == 1,
        users_named(store_user(users, user).unwrap(), user.id@) == 1,
        store_user(store_user(users, user).unwrap(), user) == store_user(users, user),
{
    reveal_with_fuel(run_insert_unless_found, 3);
    let row = UserRow { id: user.id@, password_hash: user.password_hash@ };
    lemma_users_push(users, row, user.id@, user.password_hash@);
}

/// A user who signs up under a free username is stored by its insert
/// procedure; the login lookup then finds it with its own password hash, so
/// the login that follows the sign-up succeeds, and finds nothing with any
/// other password hash, so a login with a password of another hash fails.
pub proof fn lemma_signed_up_user_can_log_in(users: Seq<UserRow>, user: User)
    requires
        users_named(users, user.id@) == 0,
    ensures
        store_user(users, user) == Some(
            users.push(UserRow { id: user.id@, password_hash: user.password_hash@ }),
        ),
        found_means_exists(
            users_matching(store_user(users, user).unwrap(), user.id@, user.password_hash@) as u32,
        ),
        forall|other_hash: Seq<char>|
            other_hash != user.password_hash@ ==> #[trigger] users_matching(
                store_user(users, user).unwrap(),
                user.id@,
                other_hash,
            ) == 0,
{
    let row = UserRow { id: user.id@, password_hash: user.password_hash@ };
    lemma_users_named_bounds_matching(users, user.id@, user.password_hash@);
    lemma_user_stored_once(users, user);
    assert forall|other_hash: Seq<char>| other_hash != user.password_hash@ implies #[trigger] users_matching(
        users.push(row),
        user.id@,
        other_hash,
    ) == 0 by {
        lemma_users_named_bounds_matching(users, user.id@, other_hash);
        lemma_users_push(users, row, user.id@, other_hash);
    }
}

/// Every statement that a creation procedure asks for is about the row just
/// inserted, of the kind that was created: the author's upvote of one on the
/// id the insert answered with, then a score of one on that same row.
pub proof fn lemma_creation_statements_name_new_row(p: CreationProcedure, reply: Reply)
    ensures
        p.next(reply).1 matches CreationStep::Run(stmt) ==> match stmt {
            Statement::AddVote { target, account_id, vote } => reply matches Reply::NewId(id)
                && account_id == p.account_id && vote == 1 && target == (match p.created {
                Created::Post => VoteTarget::Post { post_id: id },
                Created::Comment { post_id } => VoteTarget::Comment { comment_id: id, post_id },
            }),
            Statement::UpdateScore { target, score } => p.phase matches CreationPhase::Upvoting {
                new_id,
            } && score == 1 && target == (match p.created {
                Created::Post => VoteTarget::Post { post_id: new_id },
                Created::Comment { post_id } => VoteTarget::Comment { comment_id: new_id, post_id },
            }),
            _ => false,
        },
{
}

/// Runs a creation procedure against tables that answer every statement
/// truthfully and give the new row the id `fresh_id`, for at most `fuel`
/// statements: the tables and the id the procedure finishes with.
pub open spec fn run_creation(
    p: CreationProcedure,
    t: ItemTables,
    stmt: Statement,
    fresh_id: u32,
    fuel: nat,
) -> Option<(ItemTables, u32)>
    decreases fuel,
{
    if fuel == 0 {
        None
    } else {
        let (t2, reply) = store_reply(t, stmt, fresh_id);
        let (phase2, step) = p.next(reply);
        match step {
            CreationStep::Run(s) => run_creation(
                CreationProcedure { phase: phase2, ..p },
                t2,
                s,
                fresh_id,
                (fuel - 1) as nat,
            ),
            CreationStep::Finished(id) => Some((t2, id)),
            CreationStep::Unexpected => None,
        }
    }
}

/// The statement inserts a post or comment with the initial score (as the
/// `add_to_db` methods make it).
pub open spec fn inserts_with_initial_score(stmt: Statement) -> bool {
    ||| stmt matches Statement::AddPost { score, .. } && score == INITIAL_SCORE
    ||| stmt matches Statement::AddCommentToPost { score, .. } && score == INITIAL_SCORE
    ||| stmt matches Statement::AddCommentToComment { score, .. } && score == INITIAL_SCORE
}

/// Storing a new post or comment (under a fresh id without votes) adds its
/// author's upvote and stores the initial score on the new row, which is the
/// sum of its votes; no other item's votes or score change, so where every
/// stored score was the sum of its item's votes, every one still is.
pub proof fn lemma_created_score_is_vote_sum(
    t: ItemTables,
    created: Created,
    account_id: u32,
    insert: Statement,
    new_id: u32,
)
    requires
        inserts_with_initial_score(insert),
        !has_votes_on(t.votes, new_id),
    ensures
        ({
            let r = run_creation(
                CreationProcedure { created, account_id, phase: CreationPhase::Inserting },
                t,
                insert,
                new_id,
                3,
            );
            &&& r is Some
            &&& r.unwrap().1 == new_id
            &&& r.unwrap().0.votes == t.votes.push(
                VoteRow {
                    item: new_id,
                    post: created_target(created, new_id).post(),
                    account: account_id,
                    vote: INITIAL_SCORE,
                },
            )
            &&& r.unwrap().0.scores == t.scores.insert(new_id, INITIAL_SCORE)
            &&& vote_total(r.unwrap().0.votes, new_id) == INITIAL_SCORE
            &&& forall|i: u32|
                i != new_id ==> #[trigger] vote_total(r.unwrap().0.votes, i) == vote_total(t.votes, i)
            &&& scores_match_votes(t) ==> scores_match_votes(r.unwrap().0)
        }),
{
    reveal_with_fuel(run_creation, 4);
    let row = VoteRow {
        item: new_id,
        post: created_target(created, new_id).post(),
        account: account_id,
        vote: INITIAL_SCORE,
    };
    let votes = t.votes.push(row);
    lemma_vote_total_without_votes(t.votes, new_id);
    assert(votes.drop_last() =~= t.votes);
    let r = run_creation(
        CreationProcedure { created, account_id, phase: CreationPhase::Inserting },
        t,
        insert,
        new_id,
        3,
    );
    assert(r.unwrap().0.scores =~= t.scores.insert(new_id, INITIAL_SCORE));
    assert forall|i: u32| i != new_id implies #[trigger] vote_total(votes, i) == vote_total(t.votes, i) by {}
}

/// How many stored accounts carry this display name.
pub open spec fn name_count(names: Seq<Seq<char>>, name: Seq<char>) -> nat {
    names.filter(|x: Seq<char>| x == name).len()
}

/// No display name is stored twice.
pub open spec fn names_unique(names: Seq<Seq<char>>) -> bool {
    forall|name: Seq<char>| #[trigger] name_count(names, name) <= 1
}

proof fn lemma_name_count_push(names: Seq<Seq<char>>, added: Seq<char>, name: Seq<char>)
    ensures
        name_count(names.push(added), name) == name_count(names, name) + if added == name {
            1nat
        } else {
            0nat
        },
{
    reveal(Seq::filter);
    assert(names.push(added).drop_last() =~= names);
}

/// Storing an account only when the lookup of its display name finds no
/// match keeps display names unique.
pub proof fn lemma_display_names_stay_unique(names: Seq<Seq<char>>, name: Seq<char>)
    requires
        names_unique(names),
    ensures
        names_unique(
            if found_means_exists(name_count(names, name) as u32) {
                names
            } else {
                names.push(name)
            },
        ),
{
    assert(name_count(names, name) <= 1);
    if !found_means_exists(name_count(names, name) as u32) {
        assert(name_count(names, name) == 0);
        assert forall|n: Seq<char>| #[trigger] name_count(names.push(name), n) <= 1 by {
            lemma_name_count_push(names, name, n);
            assert(name_count(names, n) <= 1);
        }
    }
}

} // verus!
