//! Reading what comes back through the Tor proxy: result pages of search
//! engines and the pages they point to.

pub mod crawler;
pub mod proxy;
pub mod scraper;
