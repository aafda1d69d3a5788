//! The workers of the swarm and what they share.

pub mod analyst;
pub mod backend;
pub mod blockchain;
pub mod crawler;
pub mod enricher;
pub mod extractor;
pub mod filter;
pub mod paste;
pub mod persona;
pub mod refiner;
pub mod scraper;
pub mod specialists;
pub mod timing;
pub mod traits;
