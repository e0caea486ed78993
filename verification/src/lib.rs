//! Data-access core of a quotation service.
//!
//! The service keeps quotations, each with free-text attribution and a set
//! of tags, in a relational store with the two tables
//! `quotes(id, text, author, source)` and `tags(quote_id, tag)`. This crate
//! is the part that decides what goes to the store and what is made of its
//! replies. It never reaches the store itself: a plan names the next request
//! and takes the reply, and the caller carries the two between plan and
//! store.
//!
//! Executable parts:
//! - [`models`]: the entities, and the ids of new quotes;
//! - [`error`]: the failures and how they are presented;
//! - [`query`]: the composer of filtered searches, and the other reads;
//! - [`statement`]: the statements of the write path;
//! - [`aggregate`]: the fold of tag rows onto their quotes;
//! - [`read_path`], [`write_path`], [`step`]: the plans;
//! - [`routes`]: the shapes of the requests.
//!
//! Proof-only parts:
//! - [`text`], [`pattern`], [`seqs`]: orders, pattern matches, sequences;
//! - [`placeholders`]: every text has one `?` for each bound parameter;
//! - [`store`]: a model of the store;
//! - [`laws`]: what holds of the plans against that model.

pub mod aggregate;
pub mod error;
pub mod laws;
pub mod models;
pub mod pattern;
pub mod placeholders;
pub mod query;
pub mod read_path;
pub mod routes;
pub mod seqs;
pub mod statement;
pub mod step;
pub mod store;
pub mod text;
pub mod write_path;
