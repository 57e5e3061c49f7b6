//! Conversation histories of coding assistants, read from the storage of
//! several tools and presented as one model of projects, sessions and
//! messages.
//!
//! The library decides and decodes; it reads no file and opens no store.
//! Every operation takes what was read as text, and every identifier that
//! came from a caller or from a record is validated before it is handed out
//! to be joined onto a directory or put into a key.
//!
//! - `model` and `error` hold the canonical types and their views.
//! - `ident` and `vpath` validate identifiers and decode virtual paths.
//! - `cursor` and `opencode` are the adapters, one per provider.
//! - `multi_provider` is the façade over all providers.
//! - `recency` orders what is listed, `search` matches what is searched.
//!
//! What is taken on trust is marked `external_body` or stated with
//! `assume_specification`: the calls into `serde_json` in `json`, into
//! `chrono` in `timestamp`, into `urlencoding` and `std::path` in `paths`,
//! and `str::to_lowercase` in `search`. Everything else is proved.

pub mod error;
pub mod model;
pub mod text;
pub mod ident;
pub mod vpath;
pub mod json;
pub mod fields;
pub mod timestamp;
pub mod paths;
pub mod recency;
pub mod search;
pub mod cursor;
pub mod opencode;
pub mod multi_provider;
