use poster::db::{Reply, Statement, VoteTarget};
use poster::models::{
    Account, Comment, CreationPhase, CreationStep, InsertPhase, InsertStep, Post, User,
    NOT_LOGGED_IN_VOTE,
};
use poster::utils::hash_password;

fn account() -> Account {
    Account { id: 3, display_name: "Ann".to_string(), user_id: "ann".to_string() }
}

#[test]
fn new_user_stores_the_password_hash() {
    let user = User::new("ann".to_string(), "secret".to_string());
    assert_eq!(user.id, "ann");
    assert_eq!(user.password_hash, hash_password("secret"));
    assert_ne!(user.password_hash, "secret");
}

#[test]
fn new_records_start_without_id_and_with_score_one() {
    let a = Account::new("Ann".to_string(), "ann".to_string());
    assert_eq!((a.id, a.display_name.as_str(), a.user_id.as_str()), (0, "Ann", "ann"));
    let p = Post::new("T".to_string(), "C".to_string(), "D".to_string(), 3);
    assert_eq!((p.id, p.score, p.account_id), (0, 1, 3));
    assert_eq!((p.title.as_str(), p.content.as_str(), p.date.as_str()), ("T", "C", "D"));
    let c = Comment::new("C".to_string(), "D".to_string(), 3, 8, Some(2));
    assert_eq!((c.id, c.score, c.account_id, c.post_id, c.parent_comment_id), (0, 1, 3, 8, Some(2)));
}

#[test]
fn user_is_inserted_only_when_not_found() {
    let user = User::new("ann".to_string(), "secret".to_string());
    let (mut p, first) = user.add_to_db();
    assert!(matches!(first, Statement::FindUser { ref id, .. } if id == "ann"));
    match p.advance(Reply::Found(0)) {
        InsertStep::Run(Statement::AddUser { id, password_hash }) => {
            assert_eq!(id, "ann");
            assert_eq!(password_hash, hash_password("secret"));
        }
        _ => panic!("expected the insert"),
    }
    assert!(matches!(p.advance(Reply::Done), InsertStep::Finished));
    assert_eq!(p.phase, InsertPhase::Finished);

    let (mut p, _) = user.add_to_db();
    assert!(matches!(p.advance(Reply::Found(1)), InsertStep::Finished));
    let (mut p, _) = user.add_to_db();
    assert!(matches!(p.advance(Reply::NewId(1)), InsertStep::Unexpected));
}

#[test]
fn account_is_inserted_only_when_display_name_is_free() {
    let a = Account::new("Ann".to_string(), "ann".to_string());
    let (mut p, first) = a.add_to_db();
    assert!(matches!(first, Statement::FindDisplayName { ref display_name } if display_name == "Ann"));
    assert!(matches!(p.advance(Reply::Found(0)), InsertStep::Run(Statement::AddAccount { .. })));
    let (mut p, _) = a.add_to_db();
    assert!(matches!(p.advance(Reply::Found(1)), InsertStep::Finished));
}

#[test]
fn new_post_gets_its_authors_upvote() {
    let post = Post::new("T".to_string(), "C".to_string(), "D".to_string(), 3);
    let (mut p, first) = post.add_to_db();
    assert!(matches!(first, Statement::AddPost { score: 1, account_id: 3, .. }));
    match p.advance(Reply::NewId(42)) {
        CreationStep::Run(Statement::AddVote { target, account_id, vote }) => {
            assert_eq!(target, VoteTarget::Post { post_id: 42 });
            assert_eq!((account_id, vote), (3, 1));
        }
        _ => panic!("expected the upvote"),
    }
    match p.advance(Reply::Done) {
        CreationStep::Run(Statement::UpdateScore { target, score }) => {
            assert_eq!(target, VoteTarget::Post { post_id: 42 });
            assert_eq!(score, 1);
        }
        _ => panic!("expected the score update"),
    }
    assert!(matches!(p.advance(Reply::Done), CreationStep::Finished(42)));
    assert_eq!(p.phase, CreationPhase::Finished { new_id: 42 });
}

#[test]
fn new_comment_is_inserted_by_its_parent() {
    let top = Comment::new("C".to_string(), "D".to_string(), 3, 8, None);
    let (_, first) = top.add_to_db();
    assert!(matches!(first, Statement::AddCommentToPost { post_id: 8, .. }));
    let reply = Comment::new("C".to_string(), "D".to_string(), 3, 8, Some(5));
    let (mut p, first) = reply.add_to_db();
    assert!(matches!(first, Statement::AddCommentToComment { post_id: 8, parent_comment_id: 5, .. }));
    match p.advance(Reply::NewId(11)) {
        CreationStep::Run(Statement::AddVote { target, .. }) => {
            assert_eq!(target, VoteTarget::Comment { comment_id: 11, post_id: 8 });
        }
        _ => panic!("expected the upvote"),
    }
}

#[test]
fn shown_vote_values() {
    assert_eq!(Comment::get_vote_value(None), NOT_LOGGED_IN_VOTE);
    assert_eq!(Comment::get_vote_value(None), -2);
    assert_eq!(Comment::get_vote_value(Some(None)), 0);
    assert_eq!(Comment::get_vote_value(Some(Some(1))), 1);
    assert_eq!(Comment::get_vote_value(Some(Some(-1))), -1);
}

#[test]
fn post_data_and_comment_tree() {
    let post = Post::new("T".to_string(), "C".to_string(), "D".to_string(), 3);
    let data = post.into_post_data(account(), 4, Some(Some(-1)), "May 15".to_string());
    assert_eq!((data.vote_value, data.comment_count), (-1, 4));
    assert_eq!(data.account.display_name, "Ann");
    assert_eq!(data.date_string, "May 15");
    let anonymous = Post::new("T".to_string(), "C".to_string(), "D".to_string(), 3)
        .into_post_data(account(), 0, None, String::new());
    assert_eq!(anonymous.vote_value, -2);

    let leaf = Comment::new("r".to_string(), "D".to_string(), 3, 8, Some(1))
        .build_comment_tree(account(), Vec::new(), Some(None), "d".to_string());
    let root = Comment::new("c".to_string(), "D".to_string(), 3, 8, None)
        .build_comment_tree(account(), vec![leaf], None, "d".to_string());
    assert_eq!(root.vote_value, -2);
    assert_eq!(root.children.len(), 1);
    assert_eq!(root.children[0].vote_value, 0);
    assert_eq!(root.children[0].comment.parent_comment_id, Some(1));
}

#[test]
fn stored_post_gets_the_initial_score_whatever_its_fields_hold() {
    let mut post = Post::new("T".to_string(), "C".to_string(), "D".to_string(), 3);
    post.id = 7;
    post.score = 5;
    let (mut p, first) = post.add_to_db();
    assert!(matches!(first, Statement::AddPost { score: 1, account_id: 3, .. }));
    assert!(matches!(
        p.advance(Reply::NewId(42)),
        CreationStep::Run(Statement::AddVote { target: VoteTarget::Post { post_id: 42 }, .. })
    ));
    assert!(matches!(
        p.advance(Reply::Done),
        CreationStep::Run(Statement::UpdateScore { target: VoteTarget::Post { post_id: 42 }, score: 1 })
    ));
    assert!(matches!(p.advance(Reply::Done), CreationStep::Finished(42)));
}

#[test]
fn stored_comment_scores_its_new_row() {
    let mut comment = Comment::new("C".to_string(), "D".to_string(), 3, 8, None);
    comment.id = 4;
    comment.score = -2;
    let (mut p, first) = comment.add_to_db();
    assert!(matches!(first, Statement::AddCommentToPost { score: 1, post_id: 8, .. }));
    assert!(matches!(p.advance(Reply::NewId(11)), CreationStep::Run(Statement::AddVote { .. })));
    match p.advance(Reply::Done) {
        CreationStep::Run(Statement::UpdateScore { target, score }) => {
            assert_eq!(target, VoteTarget::Comment { comment_id: 11, post_id: 8 });
            assert_eq!(score, 1);
        }
        _ => panic!("expected the score update"),
    }
}

/// Runs `User::add_to_db` against a users table that answers as the store does.
fn store_user(users: &mut Vec<(String, String)>, user: &User) {
    let (mut p, mut stmt) = user.add_to_db();
    loop {
        let reply = match &stmt {
            Statement::FindUser { id, password_hash } => Reply::Found(
                users.iter().filter(|u| &u.0 == id && &u.1 == password_hash).count() as u32,
            ),
            Statement::AddUser { id, password_hash } => {
                users.push((id.clone(), password_hash.clone()));
                Reply::Done
            }
            _ => panic!("unexpected statement"),
        };
        match p.advance(reply) {
            InsertStep::Run(next) => stmt = next,
            InsertStep::Finished => return,
            InsertStep::Unexpected => panic!("unexpected reply"),
        }
    }
}

#[test]
fn storing_a_user_twice_changes_nothing() {
    let user = User::new("ann".to_string(), "secret".to_string());
    let mut users = vec![("bob".to_string(), hash_password("pw"))];
    store_user(&mut users, &user);
    assert_eq!(users.len(), 2);
    let once = users.clone();
    store_user(&mut users, &user);
    assert_eq!(users, once);
    assert_eq!(users.iter().filter(|u| u.0 == "ann").count(), 1);
}
