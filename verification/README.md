# poster

A small reddit-like site: users sign up and log in, write posts, comment in
threads, and up- or downvote posts and comments.

- `src/` is the verified library: the records and how they start out, the
  statement-by-statement procedures that store them and cast votes (each
  step a decision over the store's last reply), the decisions of the pages,
  password hashing, stored timestamps and the text handling of user input.
- `app/` is the web server around it: routes, sessions, templates, JSON, and
  the SQLite store that runs the library's statements.
- `tests/` exercises the library on concrete values.

## What is proved

The procedures are run, in the proofs, against tables that answer each
statement as the store does (`votes::store_reply`, `models::users_reply`).
Over that model the library proves:

- a vote toggles: the same value again takes it back, the other value
  replaces it; no account ever holds two votes on an item, and nobody
  else's votes change;
- after a vote the item's stored score is the sum of its votes, that is its
  upvotes minus its downvotes, and zero once the last vote is taken back;
  every other stored score is left alone, so scores that matched their votes
  still do;
- voting twice with the same value, from no vote or from a vote of that
  value, gives back every account's votes and the item's score;
- a new post or comment is stored with the initial score on its new row,
  together with its author's upvote, so its score is the sum of its votes;
- storing a user adds it once, and storing it again changes nothing; after
  a sign-up the login lookup finds the user with its own password hash and
  with no other;
- display names stay unique;
- the laws of the text helpers and of stored timestamps, stated beside them.

The model does not cover what SQLite itself does: the statements' text is in
`src/sql.rs` and the app runs it. The sum of an item's votes is read with
`COALESCE(SUM(vote), 0)`, so an item without votes has the score zero.
