use poster::db::{Reply, Statement};
use poster::utils::hash_password;
use poster::views::{
    add_comment_outcome, attempt_login, back_redirect, comment_from_form, comment_vote_result,
    login_handler, login_result, post_back_url, post_from_form, post_path, signup_handler,
    site_path, AddCommentForm, CommentOutcome, CommentVoteResult, CreatePostForm, LoginContext,
    LoginEnd, LoginForm, LoginStart, SignupContext, SignupForm, SignupPhase, SignupStep,
};

fn login_form() -> LoginForm {
    LoginForm { username: "ann".to_string(), password: "pw".to_string() }
}

fn signup_form(p1: &str, p2: &str) -> SignupForm {
    SignupForm {
        display_name: "Ann".to_string(),
        username: "ann".to_string(),
        password1: p1.to_string(),
        password2: p2.to_string(),
    }
}

#[test]
fn paths_live_under_the_base_path() {
    assert_eq!(site_path("/back"), "/poster/back");
    assert_eq!(post_path(42), "/poster/post/42");
    assert_eq!(post_back_url(7), "/post/7");
    assert_eq!(back_redirect(Some("/post/7".to_string())), "/poster/post/7");
    assert_eq!(back_redirect(Some(String::new())), "/poster");
    assert_eq!(back_redirect(None), "/poster");
}

#[test]
fn login_of_a_logged_in_visitor_goes_home() {
    match login_handler(true, &login_form()) {
        LoginStart::AlreadyLoggedIn { redirect } => assert_eq!(redirect, "/poster"),
        _ => panic!("expected a redirect"),
    }
}

#[test]
fn login_looks_up_name_and_password_hash() {
    match login_handler(false, &login_form()) {
        LoginStart::Check { user, lookup } => {
            assert_eq!(user.id, "ann");
            match lookup {
                Statement::FindUser { id, password_hash } => {
                    assert_eq!(id, "ann");
                    assert_eq!(password_hash, hash_password("pw"));
                }
                _ => panic!("expected the user lookup"),
            }
        }
        _ => panic!("expected a lookup"),
    }
}

#[test]
fn login_succeeds_on_exactly_one_match() {
    assert!(attempt_login(1));
    assert!(!attempt_login(0));
    assert!(!attempt_login(2));
    let user = poster::models::User::new("ann".to_string(), "pw".to_string());
    match login_result(login_form(), user, 1) {
        LoginEnd::LoggedIn { user, redirect } => {
            assert_eq!(user.id, "ann");
            assert_eq!(redirect, "/poster/back");
        }
        _ => panic!("expected a login"),
    }
}

#[test]
fn failed_login_shows_the_error() {
    let user = poster::models::User::new("ann".to_string(), "pw".to_string());
    match login_result(login_form(), user, 0) {
        LoginEnd::Failed { context, redirect } => {
            assert_eq!(context.error, "Invalid username or password");
            assert_eq!(context.attempted_username, "ann");
            assert_eq!(context.attempted_password, "pw");
            assert_eq!(redirect, "/poster/login_page");
        }
        _ => panic!("expected a failure"),
    }
}

#[test]
fn empty_page_contexts() {
    let l = LoginContext::default();
    assert!(l.error.is_empty() && l.attempted_username.is_empty() && l.attempted_password.is_empty());
    let s = SignupContext::default();
    assert!(s.error.is_empty() && s.attempted_display_name.is_empty() && s.attempted_username.is_empty());
    assert!(s.attempted_password1.is_empty() && s.attempted_password2.is_empty());
}

#[test]
fn signup_refuses_different_passwords() {
    let (p, step) = signup_handler(false, signup_form("a", "b"));
    assert_eq!(p.phase, SignupPhase::Finished);
    match step {
        SignupStep::Refused { context, redirect } => {
            assert_eq!(context.error, "Passwords do not match");
            assert_eq!(context.attempted_display_name, "Ann");
            assert_eq!(context.attempted_password2, "b");
            assert_eq!(redirect, "/poster/signup_page");
        }
        _ => panic!("expected a refusal"),
    }
    let (_, step) = signup_handler(true, signup_form("a", "a"));
    assert!(matches!(step, SignupStep::Redirect(ref p) if p == "/poster"));
}

#[test]
fn signup_refuses_taken_names() {
    let (mut p, step) = signup_handler(false, signup_form("a", "a"));
    assert!(matches!(step, SignupStep::Run(Statement::FindUsername { ref id }) if id == "ann"));
    match p.advance(Reply::Found(1)) {
        SignupStep::Refused { context, .. } => assert_eq!(context.error, "Username already exists"),
        _ => panic!("expected a refusal"),
    }
    let (mut p, _) = signup_handler(false, signup_form("a", "a"));
    assert!(matches!(
        p.advance(Reply::Found(0)),
        SignupStep::Run(Statement::FindDisplayName { ref display_name }) if display_name == "Ann"
    ));
    match p.advance(Reply::Found(1)) {
        SignupStep::Refused { context, redirect } => {
            assert_eq!(context.error, "Display name already exists");
            assert_eq!(redirect, "/poster/signup_page");
        }
        _ => panic!("expected a refusal"),
    }
}

#[test]
fn signup_registers_user_and_account() {
    let (mut p, _) = signup_handler(false, signup_form("pw", "pw"));
    p.advance(Reply::Found(0));
    match p.advance(Reply::Found(0)) {
        SignupStep::Register { user, account, redirect } => {
            assert_eq!(user.id, "ann");
            assert_eq!(user.password_hash, hash_password("pw"));
            assert_eq!((account.id, account.display_name.as_str()), (0, "Ann"));
            assert_eq!(account.user_id, "ann");
            assert_eq!(redirect, "/poster/back");
        }
        _ => panic!("expected a registration"),
    }
    assert!(matches!(p.advance(Reply::Found(0)), SignupStep::Unexpected));
}

#[test]
fn forms_are_trimmed() {
    let form = CreatePostForm { title: "  Title ".to_string(), content: "\nBody\n\n".to_string() };
    let post = post_from_form(&form, "00000000000000000001".to_string(), 3);
    assert_eq!((post.title.as_str(), post.content.as_str()), ("Title", "Body"));
    assert_eq!((post.id, post.score, post.account_id), (0, 1, 3));
    let comment = comment_from_form(&AddCommentForm { content: " hi ".to_string() }, "d".to_string(), 3, 8, None);
    assert_eq!(comment.content, "hi");
    assert_eq!((comment.post_id, comment.parent_comment_id), (8, None));
}

#[test]
fn comment_requests_go_to_the_post() {
    let CommentOutcome { add, redirect } = add_comment_outcome(4, false, true, true);
    assert!(!add);
    assert_eq!(redirect, "/poster");
    let CommentOutcome { add, redirect } = add_comment_outcome(4, true, false, true);
    assert!(!add);
    assert_eq!(redirect, "/poster/post/4");
    let CommentOutcome { add, redirect } = add_comment_outcome(4, true, true, true);
    assert!(add);
    assert_eq!(redirect, "/poster/post/4");
    let CommentOutcome { add, .. } = add_comment_outcome(4, true, true, false);
    assert!(!add);
}

#[test]
fn comment_vote_answers() {
    assert_eq!(comment_vote_result(false, 5, Some((6, 1))), CommentVoteResult { score: -1, vote_value: -2 });
    assert_eq!(comment_vote_result(true, 5, None), CommentVoteResult { score: 5, vote_value: -2 });
    assert_eq!(comment_vote_result(true, 5, Some((4, -1))), CommentVoteResult { score: 4, vote_value: -1 });
}

#[test]
fn signed_up_user_is_found_by_the_login_lookup() {
    let (mut p, _) = signup_handler(false, signup_form("pw", "pw"));
    p.advance(Reply::Found(0));
    let registered = match p.advance(Reply::Found(0)) {
        SignupStep::Register { user, .. } => user,
        _ => panic!("expected a registration"),
    };
    let (_, insert_check) = registered.add_to_db();
    let login = LoginForm { username: "ann".to_string(), password: "pw".to_string() };
    let lookup = match login_handler(false, &login) {
        LoginStart::Check { lookup, .. } => lookup,
        _ => panic!("expected a lookup"),
    };
    match (insert_check, lookup) {
        (
            Statement::FindUser { id: a, password_hash: ha },
            Statement::FindUser { id: b, password_hash: hb },
        ) => {
            assert_eq!(a, b);
            assert_eq!(ha, hb);
        }
        _ => panic!("expected user lookups"),
    }
    let wrong = LoginForm { username: "ann".to_string(), password: "other".to_string() };
    match login_handler(false, &wrong) {
        LoginStart::Check { user, .. } => assert_ne!(user.password_hash, registered.password_hash),
        _ => panic!("expected a lookup"),
    }
}
