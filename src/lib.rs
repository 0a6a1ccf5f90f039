//! A bridge that executes HTTP requests on behalf of isolated controllers
//! against a fixed cluster endpoint and hands back correlated results.
//!
//! The modules hold the decisions of the bridge: where a request goes, how a
//! response is encoded, how much of a body is read, which result each
//! command ends with, and how many commands run at once. The asynchronous
//! plumbing (the inbound queue, the HTTP client, the result channel) lives
//! around it.

pub mod envelope;
pub mod outcome;
pub mod uri;
pub mod body;
pub mod unit;
pub mod executor;
