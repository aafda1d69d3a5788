//! Settings of the Tor proxy and the browser names that requests carry.

use vstd::prelude::*;
use vstd::string::StringExecFns;
use rand::Rng;
use crate::text::{chars_of, push_decimal, push_str, text_of, decimal};

verus! {

/// Settings of the proxy.
#[derive(Debug, Clone)]
pub struct TorConfig {
    /// Address of the SOCKS5 proxy
    pub socks_addr: String,
    /// Seconds after which a request is given up
    pub timeout_secs: u64,
    /// Most retries of a request
    pub max_retries: u32,
}

impl Default for TorConfig {
    fn default() -> (c: TorConfig)
        ensures
            c.socks_addr@ == "socks5h://127.0.0.1:9050"@,
            c.timeout_secs == 45,
            c.max_retries == 3,
    {
        TorConfig { socks_addr: "socks5h://127.0.0.1:9050".to_owned(), timeout_secs: 45, max_retries: 3 }
    }
}

impl TorConfig {
    /// A copy of the settings.
    pub fn duplicate(&self) -> (c: TorConfig)
        ensures
            c == *self,
    {
        TorConfig {
            socks_addr: self.socks_addr.clone(),
            timeout_secs: self.timeout_secs,
            max_retries: self.max_retries,
        }
    }
}

/// What can go wrong on the way through Tor.
#[derive(Debug, Clone)]
pub enum TorError {
    /// The client could not be built
    ClientBuild(String),
    /// The request failed
    Request(String),
    /// No answer in time
    Timeout(u64),
    /// Too many retries
    MaxRetries(u32),
    /// The address is no URL
    InvalidUrl(String),
}

impl TorError {
    /// The error in words.
    pub open spec fn text(&self) -> Seq<char> {
        match self {
            TorError::ClientBuild(m) => "Failed to build Tor client: "@ + m@,
            TorError::Request(m) => "Request failed: "@ + m@,
            TorError::Timeout(s) => "Timeout after "@ + decimal(*s as nat) + " seconds"@,
            TorError::MaxRetries(n) => "Max retries ("@ + decimal(*n as nat) + ") exceeded"@,
            TorError::InvalidUrl(m) => "Invalid URL: "@ + m@,
        }
    }

    /// The error in words.
    pub fn message(&self) -> (r: String)
        ensures
            r@ == self.text(),
    {
        match self {
            TorError::ClientBuild(m) => "Failed to build Tor client: ".to_owned().concat(m.as_str()),
            TorError::Request(m) => "Request failed: ".to_owned().concat(m.as_str()),
            TorError::Timeout(s) => {
                let mut v = chars_of("Timeout after ");
                push_decimal(&mut v, *s);
                push_str(&mut v, " seconds");
                text_of(&v)
            },
            TorError::MaxRetries(n) => {
                let mut v = chars_of("Max retries (");
                push_decimal(&mut v, *n as u64);
                push_str(&mut v, ") exceeded");
                text_of(&v)
            },
            TorError::InvalidUrl(m) => "Invalid URL: ".to_owned().concat(m.as_str()),
        }
    }
}

/// Number of browser names to choose from.
pub const USER_AGENT_COUNT: usize = 5;

/// The browser name at `i`.
pub open spec fn spec_user_agent(i: int) -> Seq<char> {
    if i == 0 {
        "Mozilla/5.0 (Windows NT 10.0; Win64; x64) AppleWebKit/537.36 (KHTML, like Gecko) Chrome/135.0.0.0 Safari/537.36"@
    } else if i == 1 {
        "Mozilla/5.0 (Macintosh; Intel Mac OS X 10_15_7) AppleWebKit/537.36 (KHTML, like Gecko) Chrome/135.0.0.0 Safari/537.36"@
    } else if i == 2 {
        "Mozilla/5.0 (X11; Linux x86_64) AppleWebKit/537.36 (KHTML, like Gecko) Chrome/135.0.0.0 Safari/537.36"@
    } else if i == 3 {
        "Mozilla/5.0 (Windows NT 10.0; Win64; x64; rv:137.0) Gecko/20100101 Firefox/137.0"@
    } else {
        "Mozilla/5.0 (Macintosh; Intel Mac OS X 14.7; rv:137.0) Gecko/20100101 Firefox/137.0"@
    }
}

/// The browser name at `i`.
pub fn user_agent(i: usize) -> (r: &'static str)
    requires
        i < USER_AGENT_COUNT,
    ensures
        r@ == spec_user_agent(i as int),
{
    if i == 0 {
        "Mozilla/5.0 (Windows NT 10.0; Win64; x64) AppleWebKit/537.36 (KHTML, like Gecko) Chrome/135.0.0.0 Safari/537.36"
    } else if i == 1 {
        "Mozilla/5.0 (Macintosh; Intel Mac OS X 10_15_7) AppleWebKit/537.36 (KHTML, like Gecko) Chrome/135.0.0.0 Safari/537.36"
    } else if i == 2 {
        "Mozilla/5.0 (X11; Linux x86_64) AppleWebKit/537.36 (KHTML, like Gecko) Chrome/135.0.0.0 Safari/537.36"
    } else if i == 3 {
        "Mozilla/5.0 (Windows NT 10.0; Win64; x64; rv:137.0) Gecko/20100101 Firefox/137.0"
    } else {
        "Mozilla/5.0 (Macintosh; Intel Mac OS X 14.7; rv:137.0) Gecko/20100101 Firefox/137.0"
    }
}

/// Draws a number below `n` with `rand::Rng::gen_range` on the thread's
/// generator, which returns a number of the range it is given. Nothing is
/// promised of which; the generator gives up on a system that hands out
/// no random bytes to seed it.
#[verifier::external_body]
pub(crate) fn random_below(n: usize) -> (r: usize)
    requires
        n > 0,
    ensures
        r < n,
{
    rand::thread_rng().gen_range(0..n)
}

/// One of the browser names, drawn at random.
pub fn random_user_agent() -> (r: &'static str)
    ensures
        exists|i: int| 0 <= i < USER_AGENT_COUNT && r@ == #[trigger] spec_user_agent(i),
{
    let i = random_below(USER_AGENT_COUNT);
    let r = user_agent(i);
    assert(r@ == spec_user_agent(i as int));
    r
}

} // verus!
