//! The swarm: a field, a roster of workers, and the loop that drives them.
//!
//! The loop itself waits and fetches, which this crate does not do. What
//! it decides is here: a driver feeds the swarm the ticks of its clock and
//! the replies to what the workers asked for, and is told each time what to
//! do next.

use vstd::prelude::*;
use crate::agents::analyst::AnalystAgent;
use crate::agents::blockchain::{BlockchainAgent, BlockchainConfig};
use crate::agents::crawler::CrawlerAgent;
use crate::agents::enricher::{EnrichmentAgent, EnrichmentConfig};
use crate::agents::extractor::ExtractorAgent;
use crate::agents::filter::FilterAgent;
use crate::agents::paste::{PasteMonitorAgent, PasteMonitorConfig};
use crate::agents::refiner::RefinerAgent;
use crate::agents::scraper::ScraperAgent;
use crate::agents::traits::{
    emit_one, posted, AgentConfig, OsintAgent, Outgoing, Reply, Request, Step,
};
use crate::field::{
    casualties, emit_step, grown, lemma_grown_twice, of_kind, refs, retired, survivors, Field,
    FieldStats,
};
use crate::signals::{AgentType, OsintPayload, PayloadKind, Signal};
use crate::text::{chars_of, decimal, push_decimal, text_of};
use crate::tor::proxy::TorConfig;
use crate::units::UNIT;

verus! {

/// Lifetime of the user's query: 300 seconds.
pub const QUERY_TTL: u64 = 300_000;

/// Milliseconds between two ticks unless the configuration says otherwise.
pub const DEFAULT_TICK_INTERVAL_MS: u64 = 500;

/// Seconds that a swarm runs unless the configuration says otherwise.
pub const DEFAULT_MAX_RUNTIME_SECS: u64 = 300;

/// How a swarm is set up.
#[derive(Debug, Clone)]
pub struct SwarmConfig {
    /// Settings of the Tor proxy
    pub tor_config: TorConfig,
    /// Milliseconds between two ticks
    pub tick_interval_ms: u64,
    /// Seconds after which the swarm gives up; zero for never
    pub max_runtime_secs: u64,
    /// Number of crawlers
    pub num_crawlers: usize,
    /// Number of scrapers
    pub num_scrapers: usize,
    /// Whether the analyst works with specialists
    pub use_specialists: bool,
    /// Whether there is an enricher
    pub enable_enrichment: bool,
    /// Whether there is a blockchain analyst
    pub enable_blockchain: bool,
    /// Whether there is a paste monitor
    pub enable_pastes: bool,
    /// Settings of the enricher
    pub enrichment_config: EnrichmentConfig,
    /// Settings of the blockchain analyst
    pub blockchain_config: BlockchainConfig,
    /// Settings of the paste monitor
    pub paste_config: PasteMonitorConfig,
}

impl Default for SwarmConfig {
    /// Two crawlers, three scrapers, a tick every half second for five
    /// minutes, and no optional worker.
    fn default() -> (c: SwarmConfig)
        ensures
            c.tick_interval_ms == DEFAULT_TICK_INTERVAL_MS,
            c.max_runtime_secs == DEFAULT_MAX_RUNTIME_SECS,
            c.num_crawlers == 2,
            c.num_scrapers == 3,
            !c.use_specialists,
            !c.enable_enrichment,
            !c.enable_blockchain,
            !c.enable_pastes,
    {
        SwarmConfig {
            tor_config: TorConfig::default(),
            tick_interval_ms: DEFAULT_TICK_INTERVAL_MS,
            max_runtime_secs: DEFAULT_MAX_RUNTIME_SECS,
            num_crawlers: 2,
            num_scrapers: 3,
            use_specialists: false,
            enable_enrichment: false,
            enable_blockchain: false,
            enable_pastes: false,
            enrichment_config: EnrichmentConfig::default(),
            blockchain_config: BlockchainConfig::default(),
            paste_config: PasteMonitorConfig::default(),
        }
    }
}

/// A worker of the swarm.
pub enum Worker {
    Refiner(RefinerAgent),
    Crawler(CrawlerAgent),
    Filter(FilterAgent),
    Scraper(ScraperAgent),
    Extractor(ExtractorAgent),
    Enricher(EnrichmentAgent),
    Blockchain(BlockchainAgent),
    Paste(PasteMonitorAgent),
    Analyst(AnalystAgent),
}

/// What the driver does next.
#[derive(Debug)]
pub enum Action {
    /// Wait for the next tick and report it
    Wait,
    /// Perform the requests and report the replies, one for each request,
    /// in the same order
    Perform(Vec<Request>),
    /// Stop: the report is there, or time has run out
    Finish(Option<String>),
}

impl Worker {
    /// The worker is as a swarm set up by `c` makes it under the name
    /// `id`: it has the default configuration of a worker and the settings
    /// that `c` holds for its kind, and it has done nothing yet.
    pub open spec fn fresh(&self, id: Seq<char>, c: SwarmConfig) -> bool {
        match self {
            Worker::Refiner(a) => {
                &&& enrolled(a.config, id)
                &&& a.processed_queries@.len() == 0
                &&& a.pending@.len() == 0
            },
            Worker::Crawler(a) => {
                &&& enrolled(a.config, id)
                &&& a.tor_config == c.tor_config
                &&& a.processed_queries@.len() == 0
                &&& a.pending@.len() == 0
            },
            Worker::Filter(a) => enrolled(a.config, id) && a.pending is None,
            Worker::Scraper(a) => {
                &&& enrolled(a.config, id)
                &&& a.tor_config == c.tor_config
                &&& a.scraped_urls@.len() == 0
                &&& a.pending is None
            },
            Worker::Extractor(a) => enrolled(a.config, id) && a.processed_urls@.len() == 0,
            Worker::Enricher(a) => {
                &&& enrolled(a.config, id)
                &&& a.enrichment_config == c.enrichment_config
                &&& a.processed_artifacts@.len() == 0
                &&& a.pending is None
            },
            Worker::Blockchain(a) => {
                &&& enrolled(a.config, id)
                &&& a.blockchain_config == c.blockchain_config
                &&& a.processed_addresses@.len() == 0
                &&& a.pending is None
            },
            Worker::Paste(a) => {
                &&& enrolled(a.config, id)
                &&& a.paste_config == c.paste_config
                &&& a.processed_urls@.len() == 0
                &&& a.stage is Idle
            },
            Worker::Analyst(a) => {
                &&& enrolled(a.config, id)
                &&& !a.summary_generated
                &&& a.stage is Idle
                &&& if c.use_specialists {
                    a.registry matches Some(r) && crate::agents::persona::ids(r.all())
                        == crate::agents::persona::builtin_ids()
                } else {
                    a.registry is None
                }
            },
        }
    }

    /// The worker's configuration.
    pub open spec fn settings(&self) -> AgentConfig {
        match self {
            Worker::Refiner(a) => a.config,
            Worker::Crawler(a) => a.config,
            Worker::Filter(a) => a.config,
            Worker::Scraper(a) => a.config,
            Worker::Extractor(a) => a.config,
            Worker::Enricher(a) => a.config,
            Worker::Blockchain(a) => a.config,
            Worker::Paste(a) => a.config,
            Worker::Analyst(a) => a.config,
        }
    }

    /// Most requests of the worker that are in flight at once.
    pub fn max_concurrent(&self) -> (n: usize)
        ensures
            n == self.settings().max_concurrent,
    {
        match self {
            Worker::Refiner(a) => a.config.max_concurrent,
            Worker::Crawler(a) => a.config.max_concurrent,
            Worker::Filter(a) => a.config.max_concurrent,
            Worker::Scraper(a) => a.config.max_concurrent,
            Worker::Extractor(a) => a.config.max_concurrent,
            Worker::Enricher(a) => a.config.max_concurrent,
            Worker::Blockchain(a) => a.config.max_concurrent,
            Worker::Paste(a) => a.config.max_concurrent,
            Worker::Analyst(a) => a.config.max_concurrent,
        }
    }

    /// The worker's kind.
    pub open spec fn kind(&self) -> AgentType {
        match self {
            Worker::Refiner(_) => AgentType::Refiner,
            Worker::Crawler(_) => AgentType::Crawler,
            Worker::Filter(_) => AgentType::Filter,
            Worker::Scraper(_) => AgentType::Scraper,
            Worker::Extractor(_) => AgentType::Extractor,
            Worker::Enricher(_) => AgentType::Enricher,
            Worker::Blockchain(_) => AgentType::BlockchainAnalyst,
            Worker::Paste(_) => AgentType::PasteMonitor,
            Worker::Analyst(_) => AgentType::Analyst,
        }
    }
}

impl OsintAgent for Worker {
    open spec fn ready(&self) -> bool {
        match self {
            Worker::Refiner(a) => a.ready(),
            Worker::Crawler(a) => a.ready(),
            Worker::Filter(a) => a.ready(),
            Worker::Scraper(a) => a.ready(),
            Worker::Extractor(a) => a.ready(),
            Worker::Enricher(a) => a.ready(),
            Worker::Blockchain(a) => a.ready(),
            Worker::Paste(a) => a.ready(),
            Worker::Analyst(a) => a.ready(),
        }
    }

    open spec fn spec_id(&self) -> Seq<char> {
        match self {
            Worker::Refiner(a) => a.spec_id(),
            Worker::Crawler(a) => a.spec_id(),
            Worker::Filter(a) => a.spec_id(),
            Worker::Scraper(a) => a.spec_id(),
            Worker::Extractor(a) => a.spec_id(),
            Worker::Enricher(a) => a.spec_id(),
            Worker::Blockchain(a) => a.spec_id(),
            Worker::Paste(a) => a.spec_id(),
            Worker::Analyst(a) => a.spec_id(),
        }
    }

    open spec fn spec_agent_type(&self) -> Seq<char> {
        match self {
            Worker::Refiner(a) => a.spec_agent_type(),
            Worker::Crawler(a) => a.spec_agent_type(),
            Worker::Filter(a) => a.spec_agent_type(),
            Worker::Scraper(a) => a.spec_agent_type(),
            Worker::Extractor(a) => a.spec_agent_type(),
            Worker::Enricher(a) => a.spec_agent_type(),
            Worker::Blockchain(a) => a.spec_agent_type(),
            Worker::Paste(a) => a.spec_agent_type(),
            Worker::Analyst(a) => a.spec_agent_type(),
        }
    }

    open spec fn sensed(&self, live: Seq<Signal>, time: i64) -> Seq<Signal> {
        match self {
            Worker::Refiner(a) => a.sensed(live, time),
            Worker::Crawler(a) => a.sensed(live, time),
            Worker::Filter(a) => a.sensed(live, time),
            Worker::Scraper(a) => a.sensed(live, time),
            Worker::Extractor(a) => a.sensed(live, time),
            Worker::Enricher(a) => a.sensed(live, time),
            Worker::Blockchain(a) => a.sensed(live, time),
            Worker::Paste(a) => a.sensed(live, time),
            Worker::Analyst(a) => a.sensed(live, time),
        }
    }

    open spec fn began(
        &self,
        live: Seq<Signal>,
        time: i64,
        post: Self,
        after: Seq<Signal>,
        step: Step,
    ) -> bool {
        match (*self, post) {
            (Worker::Refiner(a), Worker::Refiner(b)) => a.began(live, time, b, after, step),
            (Worker::Crawler(a), Worker::Crawler(b)) => a.began(live, time, b, after, step),
            (Worker::Filter(a), Worker::Filter(b)) => a.began(live, time, b, after, step),
            (Worker::Scraper(a), Worker::Scraper(b)) => a.began(live, time, b, after, step),
            (Worker::Extractor(a), Worker::Extractor(b)) => a.began(live, time, b, after, step),
            (Worker::Enricher(a), Worker::Enricher(b)) => a.began(live, time, b, after, step),
            (Worker::Blockchain(a), Worker::Blockchain(b)) => a.began(live, time, b, after, step),
            (Worker::Paste(a), Worker::Paste(b)) => a.began(live, time, b, after, step),
            (Worker::Analyst(a), Worker::Analyst(b)) => a.began(live, time, b, after, step),
            _ => false,
        }
    }

    open spec fn proceeded(
        &self,
        live: Seq<Signal>,
        time: i64,
        replies: Seq<Reply>,
        post: Self,
        after: Seq<Signal>,
        step: Step,
    ) -> bool {
        match (*self, post) {
            (Worker::Refiner(a), Worker::Refiner(b)) => {
                a.proceeded(live, time, replies, b, after, step)
            },
            (Worker::Crawler(a), Worker::Crawler(b)) => {
                a.proceeded(live, time, replies, b, after, step)
            },
            (Worker::Filter(a), Worker::Filter(b)) => {
                a.proceeded(live, time, replies, b, after, step)
            },
            (Worker::Scraper(a), Worker::Scraper(b)) => {
                a.proceeded(live, time, replies, b, after, step)
            },
            (Worker::Extractor(a), Worker::Extractor(b)) => {
                a.proceeded(live, time, replies, b, after, step)
            },
            (Worker::Enricher(a), Worker::Enricher(b)) => {
                a.proceeded(live, time, replies, b, after, step)
            },
            (Worker::Blockchain(a), Worker::Blockchain(b)) => {
                a.proceeded(live, time, replies, b, after, step)
            },
            (Worker::Paste(a), Worker::Paste(b)) => {
                a.proceeded(live, time, replies, b, after, step)
            },
            (Worker::Analyst(a), Worker::Analyst(b)) => {
                a.proceeded(live, time, replies, b, after, step)
            },
            _ => false,
        }
    }

    open spec fn beat(&self, live: Seq<Signal>, after: Seq<Signal>) -> bool {
        match self {
            Worker::Refiner(a) => a.beat(live, after),
            Worker::Crawler(a) => a.beat(live, after),
            Worker::Filter(a) => a.beat(live, after),
            Worker::Scraper(a) => a.beat(live, after),
            Worker::Extractor(a) => a.beat(live, after),
            Worker::Enricher(a) => a.beat(live, after),
            Worker::Blockchain(a) => a.beat(live, after),
            Worker::Paste(a) => a.beat(live, after),
            Worker::Analyst(a) => a.beat(live, after),
        }
    }

    fn id(&self) -> (r: &str) {
        match self {
            Worker::Refiner(a) => OsintAgent::id(a),
            Worker::Crawler(a) => OsintAgent::id(a),
            Worker::Filter(a) => OsintAgent::id(a),
            Worker::Scraper(a) => OsintAgent::id(a),
            Worker::Extractor(a) => OsintAgent::id(a),
            Worker::Enricher(a) => OsintAgent::id(a),
            Worker::Blockchain(a) => OsintAgent::id(a),
            Worker::Paste(a) => OsintAgent::id(a),
            Worker::Analyst(a) => OsintAgent::id(a),
        }
    }

    fn agent_type(&self) -> (r: &str) {
        match self {
            Worker::Refiner(a) => OsintAgent::agent_type(a),
            Worker::Crawler(a) => OsintAgent::agent_type(a),
            Worker::Filter(a) => OsintAgent::agent_type(a),
            Worker::Scraper(a) => OsintAgent::agent_type(a),
            Worker::Extractor(a) => OsintAgent::agent_type(a),
            Worker::Enricher(a) => OsintAgent::agent_type(a),
            Worker::Blockchain(a) => OsintAgent::agent_type(a),
            Worker::Paste(a) => OsintAgent::agent_type(a),
            Worker::Analyst(a) => OsintAgent::agent_type(a),
        }
    }

    fn sense<'a>(&self, field: &'a Field) -> (out: Vec<&'a Signal>) {
        match self {
            Worker::Refiner(a) => OsintAgent::sense(a, field),
            Worker::Crawler(a) => OsintAgent::sense(a, field),
            Worker::Filter(a) => OsintAgent::sense(a, field),
            Worker::Scraper(a) => OsintAgent::sense(a, field),
            Worker::Extractor(a) => OsintAgent::sense(a, field),
            Worker::Enricher(a) => OsintAgent::sense(a, field),
            Worker::Blockchain(a) => OsintAgent::sense(a, field),
            Worker::Paste(a) => OsintAgent::sense(a, field),
            Worker::Analyst(a) => OsintAgent::sense(a, field),
        }
    }

    fn begin(&mut self, field: &mut Field) -> (step: Step)
        ensures
            final(self).kind() == old(self).kind(),
    {
        match self {
            Worker::Refiner(a) => a.begin(field),
            Worker::Crawler(a) => a.begin(field),
            Worker::Filter(a) => a.begin(field),
            Worker::Scraper(a) => a.begin(field),
            Worker::Extractor(a) => a.begin(field),
            Worker::Enricher(a) => a.begin(field),
            Worker::Blockchain(a) => a.begin(field),
            Worker::Paste(a) => a.begin(field),
            Worker::Analyst(a) => a.begin(field),
        }
    }

    fn proceed(&mut self, field: &mut Field, replies: Vec<Reply>) -> (step: Step)
        ensures
            final(self).kind() == old(self).kind(),
    {
        match self {
            Worker::Refiner(a) => a.proceed(field, replies),
            Worker::Crawler(a) => a.proceed(field, replies),
            Worker::Filter(a) => a.proceed(field, replies),
            Worker::Scraper(a) => a.proceed(field, replies),
            Worker::Extractor(a) => a.proceed(field, replies),
            Worker::Enricher(a) => a.proceed(field, replies),
            Worker::Blockchain(a) => a.proceed(field, replies),
            Worker::Paste(a) => a.proceed(field, replies),
            Worker::Analyst(a) => a.proceed(field, replies),
        }
    }

    fn heartbeat(&self, field: &mut Field) {
        match self {
            Worker::Refiner(a) => OsintAgent::heartbeat(a, field),
            Worker::Crawler(a) => OsintAgent::heartbeat(a, field),
            Worker::Filter(a) => OsintAgent::heartbeat(a, field),
            Worker::Scraper(a) => OsintAgent::heartbeat(a, field),
            Worker::Extractor(a) => OsintAgent::heartbeat(a, field),
            Worker::Enricher(a) => OsintAgent::heartbeat(a, field),
            Worker::Blockchain(a) => OsintAgent::heartbeat(a, field),
            Worker::Paste(a) => OsintAgent::heartbeat(a, field),
            Worker::Analyst(a) => OsintAgent::heartbeat(a, field),
        }
    }
}

/// The swarm.
pub struct Swarm {
    config: SwarmConfig,
    field: Field,
    agents: Vec<Worker>,
    /// The worker whose turn it is; the number of workers between ticks
    cursor: usize,
}

/// The kinds of the workers that a configuration may add to the fixed
/// ones: an enricher, a blockchain analyst and a paste monitor.
pub open spec fn optional_kinds(c: SwarmConfig) -> Seq<AgentType> {
    (if c.enable_enrichment {
        seq![AgentType::Enricher]
    } else {
        Seq::empty()
    }) + (if c.enable_blockchain {
        seq![AgentType::BlockchainAnalyst]
    } else {
        Seq::empty()
    }) + (if c.enable_pastes {
        seq![AgentType::PasteMonitor]
    } else {
        Seq::empty()
    })
}

/// The names of the workers that a configuration may add to the fixed
/// ones.
pub open spec fn optional_ids(c: SwarmConfig) -> Seq<Seq<char>> {
    (if c.enable_enrichment {
        seq!["enricher-1"@]
    } else {
        Seq::empty()
    }) + (if c.enable_blockchain {
        seq!["blockchain-1"@]
    } else {
        Seq::empty()
    }) + (if c.enable_pastes {
        seq!["paste-monitor-1"@]
    } else {
        Seq::empty()
    })
}

/// The kinds of the workers of a swarm, in the order in which they take
/// their turns: the refiner, the crawlers, the filter, the scrapers, the
/// extractor, the optional workers, the analyst.
pub open spec fn roster_of(c: SwarmConfig) -> Seq<AgentType> {
    seq![AgentType::Refiner] + Seq::new(c.num_crawlers as nat, |i: int| AgentType::Crawler)
        + seq![AgentType::Filter] + Seq::new(c.num_scrapers as nat, |i: int| AgentType::Scraper)
        + seq![AgentType::Extractor] + optional_kinds(c) + seq![AgentType::Analyst]
}

/// The names of the workers of a swarm, in the order of their turns: the
/// kind's name and a number, counted from one.
pub open spec fn roster_ids(c: SwarmConfig) -> Seq<Seq<char>> {
    seq!["refiner-1"@] + Seq::new(
        c.num_crawlers as nat,
        |i: int| numbered("crawler"@, (i + 1) as nat),
    ) + seq!["filter-1"@] + Seq::new(
        c.num_scrapers as nat,
        |i: int| numbered("scraper"@, (i + 1) as nat),
    ) + seq!["extractor-1"@] + optional_ids(c) + seq!["analyst-1"@]
}

/// The configuration of a worker of a swarm: the default one under the
/// name `id`.
pub open spec fn enrolled(config: AgentConfig, id: Seq<char>) -> bool {
    &&& config.id@ == id
    &&& config.sensing_threshold == 100_000
    &&& config.max_concurrent == 3
}

/// The kind of each worker.
pub open spec fn kinds(v: Seq<Worker>) -> Seq<AgentType> {
    v.map_values(|w: Worker| w.kind())
}

/// The report of the first of the summaries.
pub open spec fn report_of(summaries: Seq<Signal>) -> Option<Seq<char>> {
    if summaries.len() == 0 {
        None
    } else {
        match summaries[0].payload {
            OsintPayload::Summary { markdown, .. } => Some(markdown@),
            _ => None,
        }
    }
}

/// Whether the time has run out after `elapsed_ms` milliseconds: a limit
/// of zero never runs out.
pub open spec fn out_of_time(max_runtime_secs: u64, elapsed_ms: u64) -> bool {
    max_runtime_secs > 0 && elapsed_ms > max_runtime_secs * 1000
}

/// The milliseconds that are left of the run after `elapsed_ms`: none
/// where the limit is zero, which stands for no limit.
pub open spec fn time_left_of(max_runtime_secs: u64, elapsed_ms: u64) -> Option<nat> {
    if max_runtime_secs == 0 {
        None
    } else if elapsed_ms >= max_runtime_secs * 1000 {
        Some(0nat)
    } else {
        Some((max_runtime_secs * 1000 - elapsed_ms) as nat)
    }
}

/// `name` with the number `n` behind a hyphen.
pub open spec fn numbered(name: Seq<char>, n: nat) -> Seq<char> {
    name + seq!['-'] + decimal(n)
}

fn numbered_id(name: &str, n: usize) -> (r: String)
    ensures
        r@ == numbered(name@, n as nat),
{
    let mut v = chars_of(name);
    v.push('-');
    push_decimal(&mut v, n as u64);
    text_of(&v)
}

/// The live summaries, whatever their intensity.
pub open spec fn summaries(live: Seq<Signal>, time: i64) -> Seq<Signal> {
    of_kind(live, time, 0, PayloadKind::Summary)
}

/// A worker's turn: its heartbeat, then the beginning of an activation.
/// The turn finds the signals `live`, leaves the worker as `post` and the
/// signals as `after`, and has `step` as its outcome.
#[verifier::opaque]
pub open spec fn turn_of(
    w: Worker,
    live: Seq<Signal>,
    time: i64,
    post: Worker,
    after: Seq<Signal>,
    step: Step,
) -> bool {
    exists|mid: Seq<Signal>| #[trigger] w.beat(live, mid) && w.began(mid, time, post, after, step)
}

/// The worker at `at` of `ws` takes its turn on the signals `live` and is
/// done with it at once: that leaves it as `post` and the signals as
/// `after`.
pub open spec fn whole_turn(
    ws: Seq<Worker>,
    live: Seq<Signal>,
    time: i64,
    at: int,
    post: Worker,
    after: Seq<Signal>,
    step: Step,
) -> bool {
    &&& 0 <= at < ws.len()
    &&& step is Done
    &&& turn_of(ws[at], live, time, post, after, step)
}

/// The workers of `ws` from `from` up to `to` take their turns on the
/// signals `live`, one after the other, each done with its turn at once:
/// that leaves the workers as `post` and the signals as `after`.
pub open spec fn turns(
    ws: Seq<Worker>,
    live: Seq<Signal>,
    time: i64,
    from: int,
    to: int,
    post: Seq<Worker>,
    after: Seq<Signal>,
) -> bool
    decreases to - from,
{
    if to <= from {
        post == ws && after == live
    } else {
        let at = to - 1;
        exists|mid: Seq<Worker>, between: Seq<Signal>, w: Worker, step: Step|
            {
                &&& turns(ws, live, time, from, at, mid, between)
                &&& #[trigger] whole_turn(mid, between, time, at, w, after, step)
                &&& post == mid.update(at, w)
            }
    }
}

/// The workers of `ws` take their turns from `from` on, until one of them
/// asks for something or all have had their turn. That leaves the workers
/// as `post`, the signals as `after` and the turn with the worker at `to`,
/// and `action` is what the driver is told: to perform what the worker at
/// `to` asked for; or, after the last worker, to finish with the report of
/// the first live summary, or to wait where there is none.
pub open spec fn driven(
    ws: Seq<Worker>,
    live: Seq<Signal>,
    time: i64,
    from: int,
    post: Seq<Worker>,
    to: int,
    after: Seq<Signal>,
    action: Action,
) -> bool {
    match action {
        Action::Perform(requests) => exists|mid: Seq<Worker>, between: Seq<Signal>|
            {
                &&& from <= to < ws.len()
                &&& #[trigger] turns(ws, live, time, from, to, mid, between)
                &&& to < mid.len()
                &&& turn_of(mid[to], between, time, post[to], after, Step::Ask(requests))
                &&& post == mid.update(to, post[to])
            },
        Action::Wait => {
            &&& to == ws.len()
            &&& turns(ws, live, time, from, to, post, after)
            &&& report_of(summaries(after, time)) is None
        },
        Action::Finish(Some(report)) => {
            &&& to == ws.len()
            &&& turns(ws, live, time, from, to, post, after)
            &&& report_of(summaries(after, time)) == Some(report@)
        },
        Action::Finish(None) => false,
    }
}

/// The worker at `at` of `ws` goes on with `replies`, and if it is done,
/// the workers behind it take their turns. Where every worker has had its
/// turn already, the replies are dropped.
pub open spec fn resumed(
    ws: Seq<Worker>,
    live: Seq<Signal>,
    time: i64,
    at: int,
    replies: Seq<Reply>,
    post: Seq<Worker>,
    to: int,
    after: Seq<Signal>,
    action: Action,
) -> bool {
    if 0 <= at < ws.len() {
        exists|w: Worker, between: Seq<Signal>, step: Step|
            {
                &&& #[trigger] ws[at].proceeded(live, time, replies, w, between, step)
                &&& match step {
                    Step::Ask(requests) => {
                        &&& action == Action::Perform(requests)
                        &&& post == ws.update(at, w)
                        &&& after == between
                        &&& to == at
                    },
                    Step::Done(_) => driven(
                        ws.update(at, w),
                        between,
                        time,
                        at + 1,
                        post,
                        to,
                        after,
                        action,
                    ),
                }
            }
    } else {
        driven(ws, live, time, at, post, to, after, action)
    }
}

/// Each worker is in order and fresh under the name at its place.
pub open spec fn enlisted(workers: Seq<Worker>, ids: Seq<Seq<char>>, c: SwarmConfig) -> bool {
    &&& workers.len() == ids.len()
    &&& forall|k: int|
        0 <= k < workers.len() ==> (#[trigger] workers[k]).fresh(ids[k], c) && workers[k].ready()
}

/// The worker is of the kind `kind`, in order, and fresh under the name
/// `id`.
pub open spec fn enrolled_as(w: Worker, kind: AgentType, id: Seq<char>, c: SwarmConfig) -> bool {
    &&& w.kind() == kind
    &&& w.ready()
    &&& w.fresh(id, c)
}

fn crawlers(config: &SwarmConfig) -> (v: Vec<Worker>)
    ensures
        v@.len() == config.num_crawlers,
        forall|k: int|
            0 <= k < v@.len() ==> enrolled_as(
                #[trigger] v@[k],
                AgentType::Crawler,
                numbered("crawler"@, (k + 1) as nat),
                *config,
            ),
{
    let mut v: Vec<Worker> = Vec::new();
    let mut i: usize = 0;
    while i < config.num_crawlers
        invariant
            i <= config.num_crawlers,
            v@.len() == i,
            forall|k: int|
                0 <= k < v@.len() ==> enrolled_as(
                    #[trigger] v@[k],
                    AgentType::Crawler,
                    numbered("crawler"@, (k + 1) as nat),
                    *config,
                ),
        decreases config.num_crawlers - i,
    {
        let id = numbered_id("crawler", i + 1);
        v.push(
            Worker::Crawler(
                CrawlerAgent::new(
                    AgentConfig::default().with_id(id.as_str()),
                    config.tor_config.duplicate(),
                ),
            ),
        );
        i += 1;
    }
    v
}

fn scrapers(config: &SwarmConfig) -> (v: Vec<Worker>)
    ensures
        v@.len() == config.num_scrapers,
        forall|k: int|
            0 <= k < v@.len() ==> enrolled_as(
                #[trigger] v@[k],
                AgentType::Scraper,
                numbered("scraper"@, (k + 1) as nat),
                *config,
            ),
{
    let mut v: Vec<Worker> = Vec::new();
    let mut i: usize = 0;
    while i < config.num_scrapers
        invariant
            i <= config.num_scrapers,
            v@.len() == i,
            forall|k: int|
                0 <= k < v@.len() ==> enrolled_as(
                    #[trigger] v@[k],
                    AgentType::Scraper,
                    numbered("scraper"@, (k + 1) as nat),
                    *config,
                ),
        decreases config.num_scrapers - i,
    {
        let id = numbered_id("scraper", i + 1);
        v.push(
            Worker::Scraper(
                ScraperAgent::new(
                    AgentConfig::default().with_id(id.as_str()),
                    config.tor_config.duplicate(),
                ),
            ),
        );
        i += 1;
    }
    v
}

/// The workers that a configuration may add to the fixed ones.
fn optional_workers(config: &SwarmConfig) -> (v: Vec<Worker>)
    ensures
        kinds(v@) == optional_kinds(*config),
        enlisted(v@, optional_ids(*config), *config),
{
    let mut v: Vec<Worker> = Vec::new();
    let ghost mut ids: Seq<Seq<char>> = Seq::empty();
    let ghost mut ks: Seq<AgentType> = Seq::empty();
    assert(kinds(v@) =~= ks);
    if config.enable_enrichment {
        v.push(
            Worker::Enricher(
                EnrichmentAgent::new(
                    AgentConfig::default().with_id("enricher-1"),
                    config.enrichment_config.duplicate(),
                ),
            ),
        );
        proof {
            ids = ids.push("enricher-1"@);
            ks = ks.push(AgentType::Enricher);
            assert(kinds(v@) =~= ks);
        }
    }
    if config.enable_blockchain {
        v.push(
            Worker::Blockchain(
                BlockchainAgent::new(
                    AgentConfig::default().with_id("blockchain-1"),
                    config.blockchain_config.duplicate(),
                ),
            ),
        );
        proof {
            ids = ids.push("blockchain-1"@);
            ks = ks.push(AgentType::BlockchainAnalyst);
            assert(kinds(v@) =~= ks);
        }
    }
    if config.enable_pastes {
        v.push(
            Worker::Paste(
                PasteMonitorAgent::new(
                    AgentConfig::default().with_id("paste-monitor-1"),
                    config.paste_config.duplicate(),
                ),
            ),
        );
        proof {
            ids = ids.push("paste-monitor-1"@);
            ks = ks.push(AgentType::PasteMonitor);
            assert(kinds(v@) =~= ks);
        }
    }
    proof {
        assert(ks =~= optional_kinds(*config));
        assert(ids =~= optional_ids(*config));
    }
    v
}

impl Swarm {
    /// The field.
    pub closed spec fn bulletin(&self) -> Field {
        self.field
    }

    /// The workers, in the order of their turns.
    pub closed spec fn workers(&self) -> Seq<Worker> {
        self.agents@
    }

    /// The index of the worker whose turn it is.
    pub closed spec fn turn(&self) -> nat {
        self.cursor as nat
    }

    /// The swarm's configuration.
    pub closed spec fn settings(&self) -> SwarmConfig {
        self.config
    }

    /// Field and workers are in order.
    pub open spec fn wf(&self) -> bool {
        &&& self.bulletin().wf()
        &&& self.turn() <= self.workers().len()
        &&& forall|i: int| 0 <= i < self.workers().len() ==> (#[trigger] self.workers()[i]).ready()
    }

    /// What an action says of the swarm it leaves: asked to perform, a
    /// worker's turn is open; asked to wait, every worker has had its turn
    /// and no summary is live; told to finish with a report, every worker
    /// has had its turn and the report is that of the first live summary.
    pub open spec fn settled(&self, action: Action) -> bool {
        let summaries = of_kind(
            self.bulletin().live(),
            self.bulletin().time(),
            0,
            PayloadKind::Summary,
        );
        match action {
            Action::Perform(_) => self.turn() < self.workers().len(),
            Action::Wait => self.turn() == self.workers().len() && report_of(summaries) is None,
            Action::Finish(Some(report)) => self.turn() == self.workers().len() && report_of(
                summaries,
            ) == Some(report@),
            Action::Finish(None) => true,
        }
    }

    /// A swarm with an empty field and the workers that the configuration
    /// asks for, each under its name and with nothing done yet. Every
    /// worker has had its turn: the first tick begins with the first.
    pub fn new(config: SwarmConfig) -> (s: Swarm)
        ensures
            s.wf(),
            s.settings() == config,
            s.bulletin().live().len() == 0,
            s.bulletin().past().len() == 0,
            kinds(s.workers()) == roster_of(config),
            enlisted(s.workers(), roster_ids(config), config),
            s.turn() == s.workers().len(),
    {
        let mut agents: Vec<Worker> = Vec::new();
        agents.push(
            Worker::Refiner(RefinerAgent::new(AgentConfig::default().with_id("refiner-1"))),
        );
        let mut some = crawlers(&config);
        let ghost crawling = some@;
        agents.append(&mut some);
        agents.push(Worker::Filter(FilterAgent::new(AgentConfig::default().with_id("filter-1"))));
        let mut some = scrapers(&config);
        let ghost scraping = some@;
        agents.append(&mut some);
        agents.push(
            Worker::Extractor(ExtractorAgent::new(AgentConfig::default().with_id("extractor-1"))),
        );
        let mut some = optional_workers(&config);
        let ghost optional = some@;
        agents.append(&mut some);
        let analyst = if config.use_specialists {
            AnalystAgent::new_with_specialists(AgentConfig::default().with_id("analyst-1"))
        } else {
            AnalystAgent::new(AgentConfig::default().with_id("analyst-1"))
        };
        agents.push(Worker::Analyst(analyst));
        proof {
            let n = config.num_crawlers as int;
            let m = config.num_scrapers as int;
            assert(kinds(optional) == optional_kinds(config));
            assert(optional.len() == optional_ids(config).len());
            assert(agents@.len() == 4 + n + m + optional.len());
            assert(roster_ids(config).len() == agents@.len());
            assert(roster_of(config).len() == agents@.len());
            assert forall|k: int| 0 <= k < agents@.len() implies kinds(agents@)[k] == roster_of(
                config,
            )[k] && (#[trigger] agents@[k]).fresh(roster_ids(config)[k], config)
                && agents@[k].ready() by {
                if k == 0 {
                } else if k < 1 + n {
                    assert(agents@[k] == crawling[k - 1]);
                } else if k == 1 + n {
                } else if k < 2 + n + m {
                    assert(agents@[k] == scraping[k - 2 - n]);
                } else if k == 2 + n + m {
                } else if k < 3 + n + m + optional.len() {
                    assert(agents@[k] == optional[k - 3 - n - m]);
                    assert(kinds(optional)[k - 3 - n - m] == optional[k - 3 - n - m].kind());
                } else {
                }
            }
            assert(kinds(agents@) =~= roster_of(config));
        }
        let cursor = agents.len();
        Swarm { config, field: Field::new(), agents, cursor }
    }

    /// Puts the user's query into the field and returns its key.
    pub fn submit_query(&mut self, query: &str, priority: u64) -> (hash: String)
        requires
            old(self).wf(),
        ensures
            final(self).wf(),
            final(self).workers() == old(self).workers(),
            final(self).turn() == old(self).turn(),
            final(self).settings() == old(self).settings(),
            final(self).bulletin().time() == old(self).bulletin().time(),
            exists|s: Signal|
                {
                    &&& #[trigger] emit_step(
                        old(self).bulletin().live(),
                        s,
                        final(self).bulletin().live(),
                    )
                    &&& hash@ == s.origin_hash@
                    &&& s.origin_agent_id@ == "user"@
                    &&& s.confidence == UNIT
                    &&& s.ttl == QUERY_TTL
                    &&& s.payload matches OsintPayload::UserQuery { query: q, priority: p }
                    &&& q@ == query@
                    &&& p == priority
                },
    {
        let item = Outgoing {
            payload: OsintPayload::UserQuery { query: query.to_owned(), priority },
            confidence: UNIT,
            ttl: QUERY_TTL,
        };
        let ghost before = self.field.live();
        let hash = emit_one(&mut self.field, "user", item);
        proof {
            let s = choose|s: Signal|
                posted(s, "user"@, item) && #[trigger] emit_step(before, s, self.field.live())
                    && hash@ == s.origin_hash@;
            assert(s.payload == item.payload);
        }
        hash
    }

    /// The report of the first live summary.
    pub fn summary(&self) -> (r: Option<String>)
        ensures
            crate::artifacts::opt_text(r) == report_of(
                of_kind(
                    self.bulletin().live(),
                    self.bulletin().time(),
                    0,
                    PayloadKind::Summary,
                ),
            ),
    {
        let summaries = self.field.sense_kind(0, PayloadKind::Summary);
        if summaries.len() == 0 {
            return None;
        }
        assert(refs(summaries@)[0] == *summaries@[0]);
        match &summaries[0].payload {
            OsintPayload::Summary { markdown, .. } => Some(markdown.clone()),
            _ => None,
        }
    }

    /// Whether the time has run out after `elapsed_ms` milliseconds.
    pub fn timed_out(&self, elapsed_ms: u64) -> (r: bool)
        ensures
            r == out_of_time(self.settings().max_runtime_secs, elapsed_ms),
    {
        self.config.max_runtime_secs > 0 && (elapsed_ms as u128) > (
        self.config.max_runtime_secs as u128) * 1000
    }

    /// The milliseconds that are left of the run after `elapsed_ms`, for
    /// the driver to bound its waiting by; `None` where the run has no
    /// limit. More than `u64::MAX` is given as `u64::MAX`.
    pub fn time_left(&self, elapsed_ms: u64) -> (r: Option<u64>)
        ensures
            match time_left_of(self.settings().max_runtime_secs, elapsed_ms) {
                None => r is None,
                Some(ms) => r == Some(
                    if ms > u64::MAX {
                        u64::MAX
                    } else {
                        ms as u64
                    },
                ),
            },
            r matches Some(ms) && ms == 0 <==> self.settings().max_runtime_secs > 0 && elapsed_ms
                >= self.settings().max_runtime_secs * 1000,
    {
        if self.config.max_runtime_secs == 0 {
            return None;
        }
        let limit: u128 = (self.config.max_runtime_secs as u128) * 1000;
        let elapsed: u128 = elapsed_ms as u128;
        if elapsed >= limit {
            Some(0)
        } else if limit - elapsed > u64::MAX as u128 {
            Some(u64::MAX)
        } else {
            Some((limit - elapsed) as u64)
        }
    }

    /// Lets the worker whose turn it is emit its heartbeat and begin an
    /// activation.
    fn take_turn(&mut self) -> (step: Step)
        requires
            old(self).wf(),
            old(self).turn() < old(self).workers().len(),
        ensures
            turn_of(
                old(self).workers()[old(self).turn() as int],
                old(self).bulletin().live(),
                old(self).bulletin().time(),
                final(self).workers()[old(self).turn() as int],
                final(self).bulletin().live(),
                step,
            ),
            final(self).workers() == old(self).workers().update(
                old(self).turn() as int,
                final(self).workers()[old(self).turn() as int],
            ),
            final(self).wf(),
            final(self).turn() == old(self).turn(),
            final(self).settings() == old(self).settings(),
            kinds(final(self).workers()) == kinds(old(self).workers()),
            final(self).bulletin().time() == old(self).bulletin().time(),
            final(self).bulletin().past() == old(self).bulletin().past(),
            grown(old(self).bulletin().live(), final(self).bulletin().live()),
    {
        let at = self.cursor;
        let ghost before = self.agents@;
        let ghost first = self.field.live();
        let ghost time = self.field.time();
        let mut worker = self.agents.remove(at);
        let ghost pre = worker;
        worker.heartbeat(&mut self.field);
        let ghost second = self.field.live();
        let step = worker.begin(&mut self.field);
        let ghost post = worker;
        self.agents.insert(at, worker);
        proof {
            reveal(turn_of);
            lemma_grown_twice(first, second, self.field.live());
            assert(pre == before[at as int]);
            assert(self.agents@ =~= before.update(at as int, post));
            assert(kinds(self.agents@) =~= kinds(before));
            assert forall|i: int| 0 <= i < self.agents@.len() implies (
            #[trigger] self.agents@[i]).ready() by {
                if i != at {
                    assert(before[i].ready());
                }
            }
            assert(pre.beat(first, second));
            assert(pre.began(second, time, post, self.field.live(), step));
        }
        step
    }

    /// Lets the workers take their turns from the one whose turn it is,
    /// until one of them asks for something or all have had their turn.
    fn drive(&mut self) -> (action: Action)
        requires
            old(self).wf(),
        ensures
            driven(
                old(self).workers(),
                old(self).bulletin().live(),
                old(self).bulletin().time(),
                old(self).turn() as int,
                final(self).workers(),
                final(self).turn() as int,
                final(self).bulletin().live(),
                action,
            ),
            final(self).wf(),
            final(self).settled(action),
            final(self).settings() == old(self).settings(),
            kinds(final(self).workers()) == kinds(old(self).workers()),
            final(self).bulletin().time() == old(self).bulletin().time(),
            final(self).bulletin().past() == old(self).bulletin().past(),
            grown(old(self).bulletin().live(), final(self).bulletin().live()),
    {
        let ghost time = self.field.time();
        let ghost from = self.cursor as int;
        while self.cursor < self.agents.len()
            invariant
                self.wf(),
                self.config == old(self).config,
                kinds(self.agents@) == kinds(old(self).agents@),
                self.agents@.len() == old(self).agents@.len(),
                self.field.time() == time,
                time == old(self).field.time(),
                from == old(self).cursor,
                from <= self.cursor,
                self.field.past() == old(self).field.past(),
                grown(old(self).field.live(), self.field.live()),
                turns(
                    old(self).agents@,
                    old(self).field.live(),
                    time,
                    from,
                    self.cursor as int,
                    self.agents@,
                    self.field.live(),
                ),
            decreases self.agents.len() - self.cursor,
        {
            let at = self.cursor;
            let ghost before = self.agents@;
            let ghost first = self.field.live();
            let step = self.take_turn();
            let ghost post = self.agents@[at as int];
            proof {
                lemma_grown_twice(old(self).field.live(), first, self.field.live());
            }
            match step {
                Step::Ask(requests) => {
                    assert(turns(
                        old(self).agents@,
                        old(self).field.live(),
                        time,
                        from,
                        at as int,
                        before,
                        first,
                    ));
                    return Action::Perform(requests);
                },
                Step::Done(_) => {
                    self.cursor = at + 1;
                    proof {
                        let to = at as int + 1;
                        assert(whole_turn(
                            before,
                            first,
                            time,
                            to - 1,
                            post,
                            self.field.live(),
                            step,
                        ));
                        assert(self.agents@ == before.update(to - 1, post));
                        assert(turns(
                            old(self).agents@,
                            old(self).field.live(),
                            time,
                            from,
                            to - 1,
                            before,
                            first,
                        ));
                        assert(turns(
                            old(self).agents@,
                            old(self).field.live(),
                            time,
                            from,
                            to,
                            self.agents@,
                            self.field.live(),
                        ));
                    }
                },
            }
        }
        match self.summary() {
            Some(report) => Action::Finish(Some(report)),
            None => Action::Wait,
        }
    }

    /// Reports a tick of the driver's clock, `elapsed_ms` milliseconds
    /// after the start. If the time has run out, the swarm finishes without
    /// a report and nothing changes. Else the field's time moves on by the
    /// tick interval, the signals that have expired by then are retired,
    /// and the workers take their turns in the order of the roster, from
    /// the first.
    pub fn on_tick(&mut self, elapsed_ms: u64) -> (action: Action)
        requires
            old(self).wf(),
            old(self).bulletin().time() + old(self).settings().tick_interval_ms <= i64::MAX,
        ensures
            final(self).wf(),
            final(self).settled(action),
            final(self).settings() == old(self).settings(),
            kinds(final(self).workers()) == kinds(old(self).workers()),
            if out_of_time(old(self).settings().max_runtime_secs, elapsed_ms) {
                &&& action matches Action::Finish(None)
                &&& final(self).bulletin() == old(self).bulletin()
                &&& final(self).workers() == old(self).workers()
                &&& final(self).turn() == old(self).turn()
            } else {
                &&& final(self).bulletin().time() == old(self).bulletin().time() + old(
                    self,
                ).settings().tick_interval_ms
                &&& final(self).bulletin().past() == retired(
                    old(self).bulletin().past(),
                    casualties(old(self).bulletin().live(), final(self).bulletin().time()),
                    old(self).bulletin().bound() as nat,
                )
                &&& driven(
                    old(self).workers(),
                    survivors(old(self).bulletin().live(), final(self).bulletin().time()),
                    final(self).bulletin().time(),
                    0,
                    final(self).workers(),
                    final(self).turn() as int,
                    final(self).bulletin().live(),
                    action,
                )
                &&& grown(
                    survivors(old(self).bulletin().live(), final(self).bulletin().time()),
                    final(self).bulletin().live(),
                )
            },
    {
        if self.timed_out(elapsed_ms) {
            return Action::Finish(None);
        }
        self.field.tick(self.config.tick_interval_ms);
        self.cursor = 0;
        self.drive()
    }

    /// Reports the replies to what the worker whose turn it is asked for:
    /// that worker goes on with them, and once it is done the workers
    /// behind it take their turns.
    pub fn on_replies(&mut self, replies: Vec<Reply>) -> (action: Action)
        requires
            old(self).wf(),
        ensures
            resumed(
                old(self).workers(),
                old(self).bulletin().live(),
                old(self).bulletin().time(),
                old(self).turn() as int,
                replies@,
                final(self).workers(),
                final(self).turn() as int,
                final(self).bulletin().live(),
                action,
            ),
            final(self).wf(),
            final(self).settled(action),
            final(self).settings() == old(self).settings(),
            kinds(final(self).workers()) == kinds(old(self).workers()),
            final(self).bulletin().time() == old(self).bulletin().time(),
            final(self).bulletin().past() == old(self).bulletin().past(),
            grown(old(self).bulletin().live(), final(self).bulletin().live()),
    {
        let ghost first = self.field.live();
        let ghost time = self.field.time();
        if self.cursor < self.agents.len() {
            let at = self.cursor;
            let ghost before = self.agents@;
            let mut worker = self.agents.remove(at);
            let ghost pre = worker;
            let step = worker.proceed(&mut self.field, replies);
            let ghost post = worker;
            self.agents.insert(at, worker);
            proof {
                assert(pre == before[at as int]);
                assert(self.agents@ =~= before.update(at as int, post));
                assert(kinds(self.agents@) =~= kinds(before));
                assert forall|i: int| 0 <= i < self.agents@.len() implies (
                #[trigger] self.agents@[i]).ready() by {
                    if i != at {
                        assert(before[i].ready());
                    }
                }
                assert(before[at as int].proceeded(
                    first,
                    time,
                    replies@,
                    post,
                    self.field.live(),
                    step,
                ));
            }
            match step {
                Step::Ask(requests) => {
                    return Action::Perform(requests);
                },
                Step::Done(_) => {
                    self.cursor = at + 1;
                },
            }
        }
        let ghost second = self.field.live();
        let action = self.drive();
        proof {
            lemma_grown_twice(first, second, self.field.live());
        }
        action
    }

    /// The field's figures.
    pub fn stats(&self) -> (r: FieldStats)
        ensures
            r.active_signals == self.bulletin().live().len(),
            r.total_intensity == crate::field::intensity_sum(self.bulletin().live()),
            r.total_reinforcements == crate::field::reinforcement_sum(self.bulletin().live()),
            r.history_size == self.bulletin().past().len(),
    {
        self.field.stats()
    }

    /// The field.
    pub fn field(&self) -> (f: &Field)
        ensures
            *f == self.bulletin(),
    {
        &self.field
    }

    /// Milliseconds between two ticks.
    pub fn tick_interval_ms(&self) -> (ms: u64)
        ensures
            ms == self.settings().tick_interval_ms,
    {
        self.config.tick_interval_ms
    }

    /// Most requests that the driver has in flight at once while it
    /// performs what the worker whose turn it is asked for: that worker's
    /// limit, and one where the limit is zero or no turn is open.
    pub open spec fn in_flight(&self) -> nat {
        if self.turn() < self.workers().len() && self.workers()[
            self.turn() as int
        ].settings().max_concurrent > 0 {
            self.workers()[self.turn() as int].settings().max_concurrent as nat
        } else {
            1
        }
    }

    /// Most requests that the driver has in flight at once.
    pub fn max_in_flight(&self) -> (n: usize)
        ensures
            n == self.in_flight(),
            n >= 1,
    {
        if self.cursor < self.agents.len() {
            let limit = self.agents[self.cursor].max_concurrent();
            if limit > 0 {
                limit
            } else {
                1
            }
        } else {
            1
        }
    }

    /// The number of workers.
    pub fn agent_count(&self) -> (n: usize)
        ensures
            n == self.workers().len(),
    {
        self.agents.len()
    }
}

} // verus!
