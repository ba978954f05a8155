//! A client core for a paginated, token-authenticated business directory API.
//!
//! The crate holds the decisions of the client and none of its I/O: how a
//! request is formed, how a listing is walked page by page along the
//! server's continuation tokens, and how the outcomes of concurrent
//! sub-queries are gathered into one all-or-nothing result. A caller performs
//! the network round trips and hands each outcome back.

pub mod auth;
pub mod error;
pub mod services;
