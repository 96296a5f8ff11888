//! A small social site of posts and threaded comments with votes: its
//! records, the procedures that store them and cast votes, the decisions of
//! its pages, and the handling of the text that users write.
//!
//! The store and the web server are driven from outside: each procedure here
//! names the statement to run next and takes the store's reply.
pub mod db;
pub mod models;
pub mod sql;
pub mod text;
pub mod utils;
pub mod views;
pub mod votes;
