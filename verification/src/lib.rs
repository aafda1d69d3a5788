//! Stigmergic coordination for dark-web OSINT collection.
//!
//! Workers never call each other. They publish typed, decaying signals into a
//! shared field and react to what they sense there. This crate holds the
//! field, the signals, the workers' decisions and the text processing they
//! rest on. It neither waits nor fetches: where a worker needs a completion
//! of the language model or a page, it says so, and the embedding program
//! performs the request and hands the reply back.
//!
//! Quantities that range over `[0, 1]` are fixed-point numbers counted in
//! millionths (see [`units`]); times are milliseconds.
//!
//! - [`signals`], [`field`]: the coordination substrate
//! - [`artifacts`], [`search_engines`], [`tor`]: what is read from pages
//! - [`agents`]: the workers
//! - [`swarm`]: the roster and the loop's decisions
//! - [`session`]: what a run decides around the swarm's work
//! - [`canonical`], [`json`], [`html`], [`text`], [`units`]: the ground
//!   they stand on

pub mod agents;
pub mod artifacts;
pub mod canonical;
pub mod field;
pub mod html;
pub mod json;
pub mod search_engines;
pub mod session;
pub mod signals;
pub mod swarm;
pub mod text;
pub mod tor;
pub mod units;
