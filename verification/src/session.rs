//! What a run decides around the swarm's work: which service completes the
//! prompts and with which key, how much is logged, how the run is
//! announced, where the report goes, and how the run ends.

use vstd::prelude::*;
use crate::text::{chars_of, decimal, push_decimal, push_str, text_of};

verus! {

/// The services that complete prompts.
#[derive(Debug, Clone, Copy, PartialEq, Eq, Structural)]
pub enum Provider {
    Anthropic,
    OpenAI,
    OpenRouter,
}

/// The service that the flags select: OpenRouter before OpenAI, and
/// Anthropic where neither is asked for.
pub open spec fn selected(use_openai: bool, use_openrouter: bool) -> Provider {
    if use_openrouter {
        Provider::OpenRouter
    } else if use_openai {
        Provider::OpenAI
    } else {
        Provider::Anthropic
    }
}

/// The service that the flags select.
pub fn provider_of(use_openai: bool, use_openrouter: bool) -> (p: Provider)
    ensures
        p == selected(use_openai, use_openrouter),
{
    if use_openrouter {
        Provider::OpenRouter
    } else if use_openai {
        Provider::OpenAI
    } else {
        Provider::Anthropic
    }
}

impl Provider {
    /// The service's name.
    pub open spec fn label(&self) -> Seq<char> {
        match self {
            Provider::Anthropic => "Anthropic"@,
            Provider::OpenAI => "OpenAI"@,
            Provider::OpenRouter => "OpenRouter"@,
        }
    }

    /// What is said where the service's key is missing.
    pub open spec fn key_needed(&self) -> Seq<char> {
        match self {
            Provider::Anthropic =>
                "Anthropic API key required. Set ANTHROPIC_API_KEY or use --anthropic-key"@,
            Provider::OpenAI => "OpenAI API key required. Set OPENAI_API_KEY or use --api-key"@,
            Provider::OpenRouter =>
                "OpenRouter API key required. Set OPENROUTER_API_KEY or use --openrouter-key"@,
        }
    }

    /// The service's name.
    pub fn name(&self) -> (r: &'static str)
        ensures
            r@ == self.label(),
    {
        match self {
            Provider::Anthropic => "Anthropic",
            Provider::OpenAI => "OpenAI",
            Provider::OpenRouter => "OpenRouter",
        }
    }

    /// The key of the service among the three that may be given, or what is
    /// said where it is missing.
    pub fn key<'a>(
        &self,
        anthropic_key: &'a Option<String>,
        api_key: &'a Option<String>,
        openrouter_key: &'a Option<String>,
    ) -> (r: Result<&'a String, String>)
        ensures
            match (match self {
                Provider::Anthropic => *anthropic_key,
                Provider::OpenAI => *api_key,
                Provider::OpenRouter => *openrouter_key,
            }) {
                Some(k) => r matches Ok(key) && *key == k,
                None => r matches Err(m) && m@ == self.key_needed(),
            },
    {
        let (given, needed) = match self {
            Provider::Anthropic => (
                anthropic_key,
                "Anthropic API key required. Set ANTHROPIC_API_KEY or use --anthropic-key",
            ),
            Provider::OpenAI => (
                api_key,
                "OpenAI API key required. Set OPENAI_API_KEY or use --api-key",
            ),
            Provider::OpenRouter => (
                openrouter_key,
                "OpenRouter API key required. Set OPENROUTER_API_KEY or use --openrouter-key",
            ),
        };
        match given {
            Some(k) => Ok(k),
            None => Err(needed.to_owned()),
        }
    }
}

/// How much a run logs.
#[derive(Debug, Clone, Copy, PartialEq, Eq, Structural)]
pub enum LogLevel {
    Error,
    Info,
    Debug,
    Trace,
}

/// What a run logs at a verbosity: errors at zero, then information,
/// then details, and everything from three on.
pub fn log_level(verbose: u8) -> (level: LogLevel)
    ensures
        level == (if verbose == 0 {
            LogLevel::Error
        } else if verbose == 1 {
            LogLevel::Info
        } else if verbose == 2 {
            LogLevel::Debug
        } else {
            LogLevel::Trace
        }),
{
    if verbose == 0 {
        LogLevel::Error
    } else if verbose == 1 {
        LogLevel::Info
    } else if verbose == 2 {
        LogLevel::Debug
    } else {
        LogLevel::Trace
    }
}

/// The optional workers of a run in words, each followed by a comma.
pub open spec fn optional_text(enrichment: bool, blockchain: bool, pastes: bool) -> Seq<char> {
    (if enrichment {
        "1 enricher, "@
    } else {
        Seq::empty()
    }) + (if blockchain {
        "1 blockchain, "@
    } else {
        Seq::empty()
    }) + (if pastes {
        "1 paste-monitor, "@
    } else {
        Seq::empty()
    })
}

/// The workers of a run in words.
pub open spec fn roster_text(
    crawlers: nat,
    scrapers: nat,
    enrichment: bool,
    blockchain: bool,
    pastes: bool,
    specialists: bool,
) -> Seq<char> {
    "Agents: 1 refiner, "@ + decimal(crawlers) + " crawlers, 1 filter, "@ + decimal(scrapers)
        + " scrapers, 1 extractor, "@ + optional_text(enrichment, blockchain, pastes)
        + "1 analyst ("@ + (if specialists {
        "multi-specialist (6 experts)"@
    } else {
        "single"@
    }) + ")"@
}

/// The workers of a run in words.
pub fn roster_line(
    crawlers: usize,
    scrapers: usize,
    enrichment: bool,
    blockchain: bool,
    pastes: bool,
    specialists: bool,
) -> (r: String)
    ensures
        r@ == roster_text(
            crawlers as nat,
            scrapers as nat,
            enrichment,
            blockchain,
            pastes,
            specialists,
        ),
{
    let mut v = chars_of("Agents: 1 refiner, ");
    push_decimal(&mut v, crawlers as u64);
    push_str(&mut v, " crawlers, 1 filter, ");
    push_decimal(&mut v, scrapers as u64);
    push_str(&mut v, " scrapers, 1 extractor, ");
    let ghost head = v@;
    if enrichment {
        push_str(&mut v, "1 enricher, ");
    }
    if blockchain {
        push_str(&mut v, "1 blockchain, ");
    }
    if pastes {
        push_str(&mut v, "1 paste-monitor, ");
    }
    assert(v@ =~= head + optional_text(enrichment, blockchain, pastes));
    push_str(&mut v, "1 analyst (");
    if specialists {
        push_str(&mut v, "multi-specialist (6 experts)");
    } else {
        push_str(&mut v, "single");
    }
    push_str(&mut v, ")");
    text_of(&v)
}

/// `enabled` or `disabled`.
pub open spec fn mode_text(on: bool) -> Seq<char> {
    if on {
        "enabled"@
    } else {
        "disabled"@
    }
}

/// `enabled` or `disabled`.
pub fn mode(on: bool) -> (r: &'static str)
    ensures
        r@ == mode_text(on),
{
    if on {
        "enabled"
    } else {
        "disabled"
    }
}

/// Whether an answer with this status shows that the proxy reaches onion
/// services: a success or a redirection.
pub open spec fn is_reachable(status: u16) -> bool {
    200 <= status < 400
}

/// Whether an answer with this status shows that the proxy reaches onion
/// services.
pub fn reachable(status: u16) -> (r: bool)
    ensures
        r == is_reachable(status),
{
    200 <= status && status < 400
}

/// The name of the file that the report is written to where none is
/// given: `stamp` is the time of writing.
pub fn summary_file_name(stamp: &str) -> (r: String)
    ensures
        r@ == "summary_"@ + stamp@ + ".md"@,
{
    let mut v = chars_of("summary_");
    push_str(&mut v, stamp);
    push_str(&mut v, ".md");
    text_of(&v)
}

/// The exit code of a run: zero with a report, one without.
pub fn exit_code(report: &Option<String>) -> (code: i32)
    ensures
        code == (if report is Some {
            0i32
        } else {
            1i32
        }),
{
    match report {
        Some(_) => 0,
        None => 1,
    }
}

} // verus!
