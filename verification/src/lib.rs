//! Audit of a site's crawler exclusion policy: which paths the policy asks
//! crawlers to avoid, which of them answer over HTTP, and which of them
//! search engines or web archives already know.
//!
//! The library holds the rules and never touches the network: callers
//! perform the requests and hand the answers in as plain values.

pub mod engines;
pub mod fanout;
pub mod orchestrator;
pub mod paths;
pub mod pattern;
pub mod probe;
pub mod robots;
pub mod status;
pub mod text;

