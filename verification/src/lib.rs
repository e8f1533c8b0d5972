//! ALTCHA proof-of-work challenges as NGINX request variables.
//!
//! A request can read two variables. `$altcha_challenge` is a fresh challenge,
//! signed and written in JSON; `$altcha_verified` says whether what the client
//! submitted holds a challenge of ours with a solution to it. Both are governed
//! by directives, which inner contexts inherit from outer ones.
//!
//! The library holds the rules: what a directive accepts, what is inherited,
//! what a challenge is issued from, which payloads are good, and what a request
//! remembers. The server around it moves bytes, reads the clock and evaluates
//! expressions.
pub mod challenge;
pub mod config;
pub mod directives;
pub mod duration;
pub mod encoding;
pub mod text;
pub mod variables;
pub mod verify;
