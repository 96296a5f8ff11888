//! What the site's pages decide: where a visitor is sent, what a login or a
//! sign-up leads to, and how form input becomes a post or a comment.
use vstd::prelude::*;

use crate::db::{Reply, Statement};
use crate::models::{Account, Comment, Post, User, INITIAL_SCORE};
use crate::text::{decimal, trim, trimmed, u64_to_decimal};
use crate::utils::password_hash;

verus! {

/// The path under which the whole site lives.
pub const BASE_PATH: &'static str = "/poster";

/// The vote value of an upvote.
pub const UPVOTE: i32 = 1;

/// The vote value of a downvote.
pub const DOWNVOTE: i32 = -1;

/// The message shown on the login page after a failed login.
pub const INVALID_LOGIN_ERROR: &'static str = "Invalid username or password";

/// The message shown when the two passwords of a sign-up differ.
pub const PASSWORD_MISMATCH_ERROR: &'static str = "Passwords do not match";

/// The message shown when a sign-up's username is taken.
pub const USERNAME_TAKEN_ERROR: &'static str = "Username already exists";

/// The message shown when a sign-up's display name is taken.
pub const DISPLAY_NAME_TAKEN_ERROR: &'static str = "Display name already exists";

/// What the login page shows after a failed attempt.
#[derive(Clone, Debug)]
pub struct LoginContext {
    pub error: String,
    pub attempted_username: String,
    pub attempted_password: String,
}

/// The login form.
#[derive(Clone, Debug)]
pub struct LoginForm {
    pub username: String,
    pub password: String,
}

/// What the sign-up page shows after a refused sign-up.
#[derive(Clone, Debug)]
pub struct SignupContext {
    pub error: String,
    pub attempted_display_name: String,
    pub attempted_username: String,
    pub attempted_password1: String,
    pub attempted_password2: String,
}

/// The sign-up form.
#[derive(Clone, Debug)]
pub struct SignupForm {
    pub display_name: String,
    pub username: String,
    pub password1: String,
    pub password2: String,
}

/// The form for a new post.
#[derive(Clone, Debug)]
pub struct CreatePostForm {
    pub title: String,
    pub content: String,
}

/// The form for a new comment.
#[derive(Clone, Debug)]
pub struct AddCommentForm {
    pub content: String,
}

impl Default for LoginContext {
    /// The login page's context when no attempt failed: all fields empty.
    fn default() -> (c: LoginContext)
        ensures
            c.error@ == Seq::<char>::empty(),
            c.attempted_username@ == Seq::<char>::empty(),
            c.attempted_password@ == Seq::<char>::empty(),
    {
        LoginContext {
            error: String::new(),
            attempted_username: String::new(),
            attempted_password: String::new(),
        }
    }
}

impl Default for SignupContext {
    /// The sign-up page's context when no sign-up was refused: all fields empty.
    fn default() -> (c: SignupContext)
        ensures
            c.error@ == Seq::<char>::empty(),
            c.attempted_display_name@ == Seq::<char>::empty(),
            c.attempted_username@ == Seq::<char>::empty(),
            c.attempted_password1@ == Seq::<char>::empty(),
            c.attempted_password2@ == Seq::<char>::empty(),
    {
        SignupContext {
            error: String::new(),
            attempted_display_name: String::new(),
            attempted_username: String::new(),
            attempted_password1: String::new(),
            attempted_password2: String::new(),
        }
    }
}

// ---------------------------------------------------------------------------
// Paths
// ---------------------------------------------------------------------------

/// A path under the site's base path.
pub fn site_path(suffix: &str) -> (p: String)
    ensures
        p@ == BASE_PATH@ + suffix@,
{
    let mut p = String::from_str(BASE_PATH);
    p.append(suffix);
    p
}

/// The path of the page of the post `post_id`.
pub open spec fn post_path_spec(post_id: u32) -> Seq<char> {
    BASE_PATH@ + "/post/"@ + decimal(post_id as nat)
}

/// The path of the page of the post `post_id`.
pub fn post_path(post_id: u32) -> (p: String)
    ensures
        p@ == post_path_spec(post_id),
{
    let mut p = site_path("/post/");
    let id = u64_to_decimal(post_id as u64);
    p.append(id.as_str());
    p
}

/// What a post page remembers as the place to come back to: `/post/` and
/// the post's id, relative to the base path.
pub fn post_back_url(post_id: u32) -> (u: String)
    ensures
        u@ == "/post/"@ + decimal(post_id as nat),
{
    let mut u = String::from_str("/post/");
    let id = u64_to_decimal(post_id as u64);
    u.append(id.as_str());
    u
}

/// Where "back" leads: the remembered place under the base path, or the base
/// path when nothing is remembered.
pub fn back_redirect(back_url: Option<String>) -> (p: String)
    ensures
        p@ == match back_url {
            Some(u) => BASE_PATH@ + u@,
            None => BASE_PATH@,
        },
{
    match back_url {
        Some(u) => site_path(u.as_str()),
        None => String::from_str(BASE_PATH),
    }
}

// ---------------------------------------------------------------------------
// Logging in
// ---------------------------------------------------------------------------

/// How a login request begins.
#[derive(Debug)]
pub enum LoginStart {
    /// A visitor already logged in is sent to the base path.
    AlreadyLoggedIn { redirect: String },
    /// Look `user` up with `lookup`, then call [`login_result`].
    Check { user: User, lookup: Statement },
}

/// How a login request ends.
#[derive(Debug)]
pub enum LoginEnd {
    /// Store `user` as the session's current user and send the visitor back.
    LoggedIn { user: User, redirect: String },
    /// Keep `context` for the login page and send the visitor there.
    Failed { context: LoginContext, redirect: String },
}

/// The start of a login: a logged-in visitor is sent to the base path;
/// otherwise the user made of the form's username and password is looked up.
pub fn login_handler(logged_in: bool, form: &LoginForm) -> (r: LoginStart)
    ensures
        logged_in ==> (r matches LoginStart::AlreadyLoggedIn { redirect } && redirect@
            == BASE_PATH@),
        !logged_in ==> (r matches LoginStart::Check { user, lookup } && user.id@ == form.username@
            && user.password_hash@ == password_hash(form.password@) && lookup == (
        Statement::FindUser { id: user.id, password_hash: user.password_hash })),
{
    if logged_in {
        return LoginStart::AlreadyLoggedIn { redirect: String::from_str(BASE_PATH) };
    }
    let user = User::new(form.username.clone(), form.password.clone());
    let lookup = user.exists_statement();
    LoginStart::Check { user, lookup }
}

/// Whether a login succeeds, given the `found` count of the user lookup:
/// exactly one match logs the user in.
pub fn attempt_login(found: u32) -> (ok: bool)
    ensures
        ok == (found == 1),
{
    found == 1
}

/// The end of a login, given the `found` count of the lookup: on a match the
/// user is logged in and sent back; otherwise the login page is shown again
/// with the error and the attempted username and password.
pub fn login_result(form: LoginForm, user: User, found: u32) -> (r: LoginEnd)
    ensures
        found == 1 ==> (r matches LoginEnd::LoggedIn { user: u, redirect } && u == user
            && redirect@ == BASE_PATH@ + "/back"@),
        found != 1 ==> (r matches LoginEnd::Failed { context, redirect } && context.error@
            == INVALID_LOGIN_ERROR@ && context.attempted_username == form.username
            && context.attempted_password == form.password && redirect@ == BASE_PATH@
            + "/login_page"@),
{
    if attempt_login(found) {
        LoginEnd::LoggedIn { user, redirect: site_path("/back") }
    } else {
        let context = LoginContext {
            error: String::from_str(INVALID_LOGIN_ERROR),
            attempted_username: form.username,
            attempted_password: form.password,
        };
        LoginEnd::Failed { context, redirect: site_path("/login_page") }
    }
}

// ---------------------------------------------------------------------------
// Signing up
// ---------------------------------------------------------------------------

/// The sign-up page's context for a refused sign-up of `form` with `error`.
pub open spec fn refused_signup(c: SignupContext, form: SignupForm, error: Seq<char>) -> bool {
    &&& c.error@ == error
    &&& c.attempted_display_name == form.display_name
    &&& c.attempted_username == form.username
    &&& c.attempted_password1 == form.password1
    &&& c.attempted_password2 == form.password2
}

fn signup_context(form: &SignupForm, error: &str) -> (c: SignupContext)
    ensures
        refused_signup(c, *form, error@),
{
    SignupContext {
        error: String::from_str(error),
        attempted_display_name: form.display_name.clone(),
        attempted_username: form.username.clone(),
        attempted_password1: form.password1.clone(),
        attempted_password2: form.password2.clone(),
    }
}

/// Where a sign-up stands.
#[derive(Clone, Copy, Debug, PartialEq, Eq, Structural)]
pub enum SignupPhase {
    CheckingUsername,
    CheckingDisplayName,
    Finished,
}

/// What a sign-up asks for next.
#[derive(Debug)]
pub enum SignupStep {
    /// Send the visitor to this path.
    Redirect(String),
    /// Run this statement and hand back its reply.
    Run(Statement),
    /// Keep `context` for the sign-up page and send the visitor there.
    Refused { context: SignupContext, redirect: String },
    /// Store `user` and `account`, log `user` in, and send the visitor back.
    Register { user: User, account: Account, redirect: String },
    /// The reply does not fit the statement that was asked for.
    Unexpected,
}

/// A sign-up in progress.
#[derive(Debug)]
pub struct SignupProcedure {
    pub form: SignupForm,
    pub phase: SignupPhase,
}

/// The start of a sign-up: a logged-in visitor is sent to the base path; two
/// different passwords are refused; otherwise the username is looked up.
pub fn signup_handler(logged_in: bool, form: SignupForm) -> (r: (SignupProcedure, SignupStep))
    ensures
        r.0.form == form,
        logged_in ==> r.0.phase == SignupPhase::Finished && (r.1 matches SignupStep::Redirect(p)
            && p@ == BASE_PATH@),
        !logged_in && form.password1@ != form.password2@ ==> r.0.phase == SignupPhase::Finished
            && (r.1 matches SignupStep::Refused { context, redirect } && refused_signup(
            context,
            form,
            PASSWORD_MISMATCH_ERROR@,
        ) && redirect@ == BASE_PATH@ + "/signup_page"@),
        !logged_in && form.password1@ == form.password2@ ==> r.0.phase
            == SignupPhase::CheckingUsername && r.1 == SignupStep::Run(
            Statement::FindUsername { id: form.username },
        ),
{
    if logged_in {
        let step = SignupStep::Redirect(String::from_str(BASE_PATH));
        return (SignupProcedure { form, phase: SignupPhase::Finished }, step);
    }
    if form.password1 != form.password2 {
        let context = signup_context(&form, PASSWORD_MISMATCH_ERROR);
        let step = SignupStep::Refused { context, redirect: site_path("/signup_page") };
        return (SignupProcedure { form, phase: SignupPhase::Finished }, step);
    }
    let step = SignupStep::Run(Statement::FindUsername { id: form.username.clone() });
    (SignupProcedure { form, phase: SignupPhase::CheckingUsername }, step)
}

impl SignupProcedure {
    /// Takes the `found` count of the last lookup: a taken username or display
    /// name refuses the sign-up; a free username leads to the display name
    /// lookup; a free display name registers the user (with the first
    /// password) and its account.
    pub fn advance(&mut self, reply: Reply) -> (step: SignupStep)
        ensures
            final(self).form == old(self).form,
            match (old(self).phase, reply) {
                (SignupPhase::CheckingUsername, Reply::Found(found)) => if found == 1 {
                    final(self).phase == SignupPhase::Finished && (step matches SignupStep::Refused {
                        context,
                        redirect,
                    } && refused_signup(context, old(self).form, USERNAME_TAKEN_ERROR@) && redirect@
                        == BASE_PATH@ + "/signup_page"@)
                } else {
                    final(self).phase == SignupPhase::CheckingDisplayName && step == SignupStep::Run(
                        Statement::FindDisplayName { display_name: old(self).form.display_name },
                    )
                },
                (SignupPhase::CheckingDisplayName, Reply::Found(found)) => if found == 1 {
                    final(self).phase == SignupPhase::Finished && (step matches SignupStep::Refused {
                        context,
                        redirect,
                    } && refused_signup(context, old(self).form, DISPLAY_NAME_TAKEN_ERROR@)
                        && redirect@ == BASE_PATH@ + "/signup_page"@)
                } else {
                    final(self).phase == SignupPhase::Finished && (step matches SignupStep::Register {
                        user,
                        account,
                        redirect,
                    } && user.id@ == old(self).form.username@ && user.password_hash@ == password_hash(
                        old(self).form.password1@,
                    ) && account.id == 0 && account.display_name@ == old(self).form.display_name@
                        && account.user_id@ == old(self).form.username@ && redirect@ == BASE_PATH@
                        + "/back"@)
                },
                _ => final(self).phase == old(self).phase && step == SignupStep::Unexpected,
            },
    {
        match (self.phase, reply) {
            (SignupPhase::CheckingUsername, Reply::Found(found)) => {
                if found == 1 {
                    self.phase = SignupPhase::Finished;
                    let context = signup_context(&self.form, USERNAME_TAKEN_ERROR);
                    SignupStep::Refused { context, redirect: site_path("/signup_page") }
                } else {
                    self.phase = SignupPhase::CheckingDisplayName;
                    SignupStep::Run(
                        Statement::FindDisplayName { display_name: self.form.display_name.clone() },
                    )
                }
            },
            (SignupPhase::CheckingDisplayName, Reply::Found(found)) => {
                self.phase = SignupPhase::Finished;
                if found == 1 {
                    let context = signup_context(&self.form, DISPLAY_NAME_TAKEN_ERROR);
                    SignupStep::Refused { context, redirect: site_path("/signup_page") }
                } else {
                    let user = User::new(self.form.username.clone(), self.form.password1.clone());
                    let account = Account::new(self.form.display_name.clone(), user.id.clone());
                    SignupStep::Register { user, account, redirect: site_path("/back") }
                }
            },
            _ => SignupStep::Unexpected,
        }
    }
}

// ---------------------------------------------------------------------------
// New posts and comments
// ---------------------------------------------------------------------------

/// The post that the new-post form makes: title and content trimmed, the
/// given date and author, a score of one.
pub fn post_from_form(form: &CreatePostForm, date: String, account_id: u32) -> (post: Post)
    ensures
        post.id == 0,
        post.title@ == trim(form.title@),
        post.content@ == trim(form.content@),
        post.date == date,
        post.account_id == account_id,
        post.score == INITIAL_SCORE,
{
    let title = trimmed(form.title.as_str());
    let content = trimmed(form.content.as_str());
    Post::new(title, content, date, account_id)
}

/// The comment that the comment form makes: content trimmed, the given date,
/// author, post and parent comment, a score of one.
pub fn comment_from_form(
    form: &AddCommentForm,
    date: String,
    account_id: u32,
    post_id: u32,
    parent_comment_id: Option<u32>,
) -> (comment: Comment)
    ensures
        comment.id == 0,
        comment.content@ == trim(form.content@),
        comment.date == date,
        comment.account_id == account_id,
        comment.post_id == post_id,
        comment.parent_comment_id == parent_comment_id,
        comment.score == INITIAL_SCORE,
{
    let content = trimmed(form.content.as_str());
    Comment::new(content, date, account_id, post_id, parent_comment_id)
}

/// What a comment request leads to: whether to add the comment, and where
/// to send the visitor.
#[derive(Debug)]
pub struct CommentOutcome {
    pub add: bool,
    pub redirect: String,
}

/// The outcome of a comment request on the post `post_id`: a missing post
/// sends the visitor to the base path without a comment; a missing parent
/// comment sends the visitor to the post without a comment; otherwise the
/// comment is added when the visitor is logged in, and the visitor goes to
/// the post either way. A top-level comment passes `parent_found = true`.
pub fn add_comment_outcome(post_id: u32, post_found: bool, parent_found: bool, logged_in: bool) -> (o:
    CommentOutcome)
    ensures
        !post_found ==> !o.add && o.redirect@ == BASE_PATH@,
        post_found && !parent_found ==> !o.add && o.redirect@ == post_path_spec(post_id),
        post_found && parent_found ==> o.add == logged_in && o.redirect@ == post_path_spec(post_id),
{
    if !post_found {
        CommentOutcome { add: false, redirect: String::from_str(BASE_PATH) }
    } else if !parent_found {
        CommentOutcome { add: false, redirect: post_path(post_id) }
    } else {
        CommentOutcome { add: logged_in, redirect: post_path(post_id) }
    }
}

// ---------------------------------------------------------------------------
// Votes on comments
// ---------------------------------------------------------------------------

/// The answer to a vote on a comment: the comment's score and the viewer's
/// vote on it.
#[derive(Clone, Copy, Debug, PartialEq, Eq, Structural)]
pub struct CommentVoteResult {
    pub score: i32,
    pub vote_value: i32,
}

/// The answer to a vote on a comment: `-1` and `-2` when the post or the
/// comment is missing; the comment's unchanged score and `-2` for a visitor
/// who is not logged in (`cast` is `None`); otherwise the new score and the
/// viewer's vote after the vote was cast.
pub fn comment_vote_result(found: bool, unchanged_score: i32, cast: Option<(i32, i32)>) -> (r:
    CommentVoteResult)
    ensures
        !found ==> r == (CommentVoteResult { score: -1i32, vote_value: -2i32 }),
        found && cast is None ==> r == (CommentVoteResult { score: unchanged_score, vote_value: -2i32 }),
        found && cast is Some ==> r == (CommentVoteResult {
            score: cast.unwrap().0,
            vote_value: cast.unwrap().1,
        }),
{
    if !found {
        CommentVoteResult { score: -1, vote_value: -2 }
    } else {
        match cast {
            None => CommentVoteResult { score: unchanged_score, vote_value: -2 },
            Some((score, vote_value)) => CommentVoteResult { score, vote_value },
        }
    }
}

} // verus!
