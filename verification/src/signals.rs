//! Signals: content-addressed messages whose intensity decays with time and
//! whose confidence grows when other workers repeat them.

use vstd::prelude::*;
use sha2::Digest;
use vstd::utf8::encode_utf8;
use crate::artifacts::Artifact;
use crate::canonical::{canonical_json, payload_json};
use crate::text::{distinct, holds, names, prefix, string_of};
use crate::units::{
    clamp_unit, exp_neg, lemma_exp_neg_bounds, lemma_exp_neg_one, spec_clamp_unit, spec_exp_neg,
    EXP_LIMIT, UNIT,
};

verus! {

/// Lifetime of a signal unless its builder says otherwise: 60 seconds.
pub const DEFAULT_TTL: u64 = 60_000;

/// Decay rate of a signal unless its builder says otherwise: 0.1 per second.
pub const DEFAULT_DECAY_RATE: u64 = 100_000;

/// Trust in a node nothing is known of.
pub const DEFAULT_TRUST: u64 = 500_000;

/// Least trust.
pub const MIN_TRUST: u64 = 0;

/// Most trust.
pub const MAX_TRUST: u64 = 1_000_000;

/// A raw intensity below this (0.01) expires a signal.
pub const EXPIRY_FLOOR: u64 = 10_000;

/// How an intensity falls with age.
#[derive(Debug, Clone, Copy, PartialEq, Eq, Structural)]
pub enum DecayFunction {
    /// `I(t) = I0 * e^(-rate * t)`
    Exponential,
    /// `I(t) = I0 * (1 - t / ttl)`
    Linear,
    /// Full intensity until the lifetime is over
    Step,
}

impl Default for DecayFunction {
    fn default() -> (r: DecayFunction)
        ensures
            r == DecayFunction::Exponential,
    {
        DecayFunction::Exponential
    }
}

/// Categories of insight.
#[derive(Debug, Clone, Copy, PartialEq, Eq, Structural)]
pub enum InsightCategory {
    ThreatActor,
    Malware,
    Vulnerability,
    DataLeak,
    Infrastructure,
    Financial,
    Operational,
    Attribution,
}

/// The kinds of worker.
#[derive(Debug, Clone, Copy, PartialEq, Eq, Structural)]
pub enum AgentType {
    Refiner,
    Crawler,
    Filter,
    Scraper,
    Extractor,
    Enricher,
    BlockchainAnalyst,
    PasteMonitor,
    Analyst,
}

/// A pattern in the times of a wallet's transactions.
#[derive(Debug, Clone)]
pub struct TemporalPattern {
    /// `regular_interval`, `burst_activity`, `dormant_then_active` or
    /// `timezone_indicator`
    pub pattern_type: String,
    /// The pattern in words
    pub description: String,
    /// Confidence in millionths
    pub confidence: u64,
    /// The figures it rests on
    pub evidence: Vec<String>,
}

/// What the transactions of a wallet show.
#[derive(Debug, Clone)]
pub struct WalletAnalysis {
    /// Time of the first transaction, in seconds since the epoch
    pub first_seen: Option<i64>,
    /// Time of the last transaction, in seconds since the epoch
    pub last_seen: Option<i64>,
    /// Number of transactions
    pub tx_count: u32,
    /// Sum received, in the chain's smallest unit
    pub total_received: u64,
    /// Sum sent, in the chain's smallest unit
    pub total_sent: u64,
    /// Balance, in the chain's smallest unit
    pub balance: u64,
    /// Patterns in the transaction times
    pub patterns: Vec<TemporalPattern>,
    /// Signs of risk
    pub risk_indicators: Vec<String>,
}

/// One finding of an outside search about an artifact.
#[derive(Debug, Clone)]
pub struct EnrichmentFinding {
    /// `github_code`, `web_search` and the like
    pub finding_type: String,
    /// Title of the finding
    pub title: String,
    /// Where it was found
    pub url: Option<String>,
    /// A few words of it
    pub snippet: String,
    /// Relevance in millionths
    pub relevance: u64,
}

/// What a signal carries.
#[derive(Debug, Clone)]
pub enum OsintPayload {
    /// A query as the user gave it
    UserQuery { query: String, priority: u64 },
    /// A query reworded for dark-web search engines
    RefinedQuery { original: String, refined: String, confidence: u64 },
    /// A link a search engine returned
    RawResult { url: String, title: String, engine: String },
    /// A link judged relevant
    FilteredResult { url: String, title: String, relevance: u64, reason: String },
    /// The text of a page
    ScrapedContent { url: String, title: String, text: String, char_count: usize },
    /// Artifacts found in a page
    ExtractedArtifacts { source_url: String, artifacts: Vec<Artifact> },
    /// An insight of an analysis
    Insight { category: InsightCategory, content: String, sources: Vec<String>, confidence: u64 },
    /// The final report
    Summary { markdown: String, artifact_count: usize, source_count: usize },
    /// What an outside source knows of an artifact
    EnrichedArtifacts { artifact: Artifact, source: String, findings: Vec<EnrichmentFinding> },
    /// What the transactions of an address show
    BlockchainAnalysis { address: String, chain: String, analysis: WalletAnalysis },
    /// A paste found on a paste site
    PasteContent {
        url: String,
        site: String,
        title: Option<String>,
        content: String,
        created_at: Option<String>,
        author: Option<String>,
    },
    /// A worker's sign of life
    Heartbeat { agent_id: String, agent_type: AgentType, capacity: u64 },
    /// A claim on a task
    TaskClaim { task_id: String, claimer_id: String, affinity: u64 },
}

/// The variants of a payload, without what they carry.
#[derive(Debug, Clone, Copy, PartialEq, Eq, Structural)]
pub enum PayloadKind {
    UserQuery,
    RefinedQuery,
    RawResult,
    FilteredResult,
    ScrapedContent,
    ExtractedArtifacts,
    Insight,
    Summary,
    EnrichedArtifacts,
    BlockchainAnalysis,
    PasteContent,
    Heartbeat,
    TaskClaim,
}

impl OsintPayload {
    /// The payload's variant.
    pub open spec fn spec_kind(&self) -> PayloadKind {
        match self {
            OsintPayload::UserQuery { .. } => PayloadKind::UserQuery,
            OsintPayload::RefinedQuery { .. } => PayloadKind::RefinedQuery,
            OsintPayload::RawResult { .. } => PayloadKind::RawResult,
            OsintPayload::FilteredResult { .. } => PayloadKind::FilteredResult,
            OsintPayload::ScrapedContent { .. } => PayloadKind::ScrapedContent,
            OsintPayload::ExtractedArtifacts { .. } => PayloadKind::ExtractedArtifacts,
            OsintPayload::Insight { .. } => PayloadKind::Insight,
            OsintPayload::Summary { .. } => PayloadKind::Summary,
            OsintPayload::EnrichedArtifacts { .. } => PayloadKind::EnrichedArtifacts,
            OsintPayload::BlockchainAnalysis { .. } => PayloadKind::BlockchainAnalysis,
            OsintPayload::PasteContent { .. } => PayloadKind::PasteContent,
            OsintPayload::Heartbeat { .. } => PayloadKind::Heartbeat,
            OsintPayload::TaskClaim { .. } => PayloadKind::TaskClaim,
        }
    }

    /// The payload's variant.
    #[verifier::when_used_as_spec(spec_kind)]
    pub fn kind(&self) -> (k: PayloadKind)
        ensures
            k == self.spec_kind(),
    {
        match self {
            OsintPayload::UserQuery { .. } => PayloadKind::UserQuery,
            OsintPayload::RefinedQuery { .. } => PayloadKind::RefinedQuery,
            OsintPayload::RawResult { .. } => PayloadKind::RawResult,
            OsintPayload::FilteredResult { .. } => PayloadKind::FilteredResult,
            OsintPayload::ScrapedContent { .. } => PayloadKind::ScrapedContent,
            OsintPayload::ExtractedArtifacts { .. } => PayloadKind::ExtractedArtifacts,
            OsintPayload::Insight { .. } => PayloadKind::Insight,
            OsintPayload::Summary { .. } => PayloadKind::Summary,
            OsintPayload::EnrichedArtifacts { .. } => PayloadKind::EnrichedArtifacts,
            OsintPayload::BlockchainAnalysis { .. } => PayloadKind::BlockchainAnalysis,
            OsintPayload::PasteContent { .. } => PayloadKind::PasteContent,
            OsintPayload::Heartbeat { .. } => PayloadKind::Heartbeat,
            OsintPayload::TaskClaim { .. } => PayloadKind::TaskClaim,
        }
    }
}

/// A signal in the field.
#[derive(Debug, Clone)]
pub struct Signal {
    /// Tag of this instance, for logs
    pub id: String,
    /// Digest of payload and origin: the key under which the field holds it
    pub origin_hash: String,
    /// What it carries
    pub payload: OsintPayload,
    /// Intensity at creation, in millionths
    pub intensity: u64,
    /// Intensity at the field's last tick, in millionths
    pub current_intensity: u64,
    /// Lifetime in milliseconds
    pub ttl: u64,
    /// Decay rate in millionths per second
    pub decay_rate: u64,
    /// How the intensity falls
    pub decay_function: DecayFunction,
    /// The sender's confidence, in millionths
    pub confidence: u64,
    /// The worker that sent it
    pub origin_agent_id: String,
    /// Time of creation, in milliseconds since the epoch
    pub created_at: i64,
    /// Number of workers that repeated it
    pub reinforcement_count: u32,
    /// The workers that repeated it
    pub reinforced_by: Vec<String>,
}

/// The SHA-256 digest of a sequence of bytes.
pub uninterp spec fn sha256_digest(data: Seq<u8>) -> Seq<u8>;

/// Calls `sha2::Sha256::digest`, which returns the 32 bytes of the SHA-256
/// digest of its argument.
#[verifier::external_body]
pub(crate) fn sha256(data: &Vec<u8>) -> (r: Vec<u8>)
    ensures
        r@ == sha256_digest(data@),
        r@.len() == 32,
{
    sha2::Sha256::digest(data.as_slice()).to_vec()
}

/// Calls `chrono::Utc::now` and returns the milliseconds since the epoch
/// that `timestamp_millis` reads from it. Nothing is promised of the clock;
/// `now` gives up on a system whose clock stands before 1970.
#[verifier::external_body]
pub(crate) fn now_millis() -> i64 {
    chrono::Utc::now().timestamp_millis()
}

/// Calls `uuid::Uuid::new_v4` and returns the random identifier in its
/// hyphenated form, which is 36 characters long. Nothing is promised of
/// the identifier itself; `new_v4` gives up on a system that hands out no
/// random bytes.
#[verifier::external_body]
pub(crate) fn fresh_id() -> (r: String)
    ensures
        r@.len() == 36,
{
    uuid::Uuid::new_v4().to_string()
}

/// The lower-case hexadecimal digit for `d`.
pub open spec fn hex_char(d: nat) -> char {
    if d == 0 { '0' }
    else if d == 1 { '1' }
    else if d == 2 { '2' }
    else if d == 3 { '3' }
    else if d == 4 { '4' }
    else if d == 5 { '5' }
    else if d == 6 { '6' }
    else if d == 7 { '7' }
    else if d == 8 { '8' }
    else if d == 9 { '9' }
    else if d == 10 { 'a' }
    else if d == 11 { 'b' }
    else if d == 12 { 'c' }
    else if d == 13 { 'd' }
    else if d == 14 { 'e' }
    else { 'f' }
}

/// The bytes in lower-case hexadecimal, two digits each.
pub open spec fn hex_lower(bytes: Seq<u8>) -> Seq<char>
    decreases bytes.len(),
{
    if bytes.len() == 0 {
        Seq::empty()
    } else {
        hex_lower(bytes.drop_last()).push(hex_char((bytes.last() / 16) as nat)).push(
            hex_char((bytes.last() % 16) as nat),
        )
    }
}

/// The key of a payload sent by `agent`: the first 16 hexadecimal digits of
/// the SHA-256 digest of the payload's canonical form followed by the
/// agent's name, both in UTF-8.
pub open spec fn origin_hash_of(payload: OsintPayload, agent: Seq<char>) -> Seq<char> {
    hex_lower(sha256_digest(encode_utf8(canonical_json(payload)) + encode_utf8(agent))).take(16)
}

fn hex_digit(d: u8) -> (c: char)
    requires
        d < 16,
    ensures
        c == hex_char(d as nat),
{
    if d == 0 { '0' }
    else if d == 1 { '1' }
    else if d == 2 { '2' }
    else if d == 3 { '3' }
    else if d == 4 { '4' }
    else if d == 5 { '5' }
    else if d == 6 { '6' }
    else if d == 7 { '7' }
    else if d == 8 { '8' }
    else if d == 9 { '9' }
    else if d == 10 { 'a' }
    else if d == 11 { 'b' }
    else if d == 12 { 'c' }
    else if d == 13 { 'd' }
    else if d == 14 { 'e' }
    else { 'f' }
}

/// The bytes in lower-case hexadecimal.
pub fn to_hex(bytes: &Vec<u8>) -> (r: Vec<char>)
    ensures
        r@ == hex_lower(bytes@),
        r@.len() == 2 * bytes@.len(),
{
    let mut r: Vec<char> = Vec::new();
    let mut i: usize = 0;
    assert(bytes@.take(0) =~= Seq::<u8>::empty());
    while i < bytes.len()
        invariant
            i <= bytes.len(),
            r@ == hex_lower(bytes@.take(i as int)),
            r@.len() == 2 * i,
        decreases bytes.len() - i,
    {
        let b = bytes[i];
        proof {
            let t = bytes@.take(i + 1);
            assert(t.drop_last() =~= bytes@.take(i as int));
            assert(t.last() == b);
        }
        r.push(hex_digit(b / 16));
        r.push(hex_digit(b % 16));
        i += 1;
    }
    assert(bytes@.take(bytes@.len() as int) =~= bytes@);
    r
}

/// The raised confidence after the `count`-th reinforcement: a tenth,
/// divided by `1 + count / 2`, is added, and the sum is limited to one.
pub open spec fn raised(confidence: nat, count: nat) -> nat {
    spec_clamp_unit(confidence + 200_000nat / (2 + count))
}

impl Signal {
    /// The signal's numbers are in range and its list of reinforcers is a
    /// set whose size is the reinforcement count.
    pub open spec fn wf(&self) -> bool {
        &&& self.intensity <= UNIT
        &&& self.current_intensity <= self.intensity
        &&& self.confidence <= UNIT
        &&& self.reinforcement_count == self.reinforced_by@.len()
        &&& distinct(names(self.reinforced_by@))
    }

    /// The key is the digest of the payload and the origin.
    pub open spec fn addressed(&self) -> bool {
        self.origin_hash@ == origin_hash_of(self.payload, self.origin_agent_id@)
    }

    /// Milliseconds from the signal's creation to `now`.
    pub open spec fn age_at(&self, now: i64) -> int {
        now - self.created_at
    }

    /// `decay_rate * age` in millionths, for an age in milliseconds.
    pub open spec fn decay_exponent(&self, age: int) -> nat {
        (self.decay_rate * age / 1000) as nat
    }

    /// The raw intensity at `now`: the initial one before the signal's
    /// creation, zero from the end of its lifetime on, and between the two
    /// what the decay function leaves of the initial one.
    pub open spec fn intensity_at(&self, now: i64) -> nat {
        let age = self.age_at(now);
        if age < 0 {
            self.intensity as nat
        } else if age >= self.ttl {
            0
        } else {
            match self.decay_function {
                DecayFunction::Exponential => (self.intensity * spec_exp_neg(
                    self.decay_exponent(age),
                ) / (UNIT as int)) as nat,
                DecayFunction::Linear => (self.intensity * (self.ttl - age) / (
                self.ttl as int)) as nat,
                DecayFunction::Step => self.intensity as nat,
            }
        }
    }

    /// One plus a tenth for each reinforcement, at most one and a half.
    pub open spec fn boost(&self) -> nat {
        if self.reinforcement_count >= 5 {
            1_500_000
        } else {
            (UNIT + 100_000 * self.reinforcement_count) as nat
        }
    }

    /// What sensors compare with their thresholds: raw intensity times
    /// confidence times boost, at most one.
    pub open spec fn effective_at(&self, now: i64) -> nat {
        spec_clamp_unit(
            (self.intensity_at(now) * self.confidence * self.boost() / ((UNIT * UNIT) as int)) as nat,
        )
    }

    /// The signal's lifetime is over at `now`, or its raw intensity has
    /// fallen below 0.01.
    pub open spec fn expired_at(&self, now: i64) -> bool {
        self.age_at(now) >= self.ttl || self.intensity_at(now) < EXPIRY_FLOOR
    }

    /// Whether a reinforcement by `id` counts: `id` has not reinforced the
    /// signal yet, and the count can still grow.
    pub open spec fn accepts(&self, id: Seq<char>) -> bool {
        !names(self.reinforced_by@).contains(id) && self.reinforcement_count < u32::MAX
    }

    /// A builder for a signal that carries `payload`.
    pub fn builder(payload: OsintPayload) -> (b: SignalBuilder)
        ensures
            b == SignalBuilder::initial(payload, b.origin_agent_id),
            b.origin_agent_id@.len() == 0,
    {
        SignalBuilder::new(payload)
    }

    /// The raw intensity at `current_time`.
    pub fn compute_intensity(&self, current_time: i64) -> (r: u64)
        ensures
            r == self.intensity_at(current_time),
            r <= self.intensity,
    {
        let age: i128 = current_time as i128 - self.created_at as i128;
        if age < 0 {
            return self.intensity;
        }
        if age >= self.ttl as i128 {
            return 0;
        }
        let i0: u128 = self.intensity as u128;
        match self.decay_function {
            DecayFunction::Exponential => {
                assert(self.decay_rate * age <= u64::MAX * u64::MAX) by (nonlinear_arith)
                    requires
                        0 <= age <= u64::MAX,
                        0 <= self.decay_rate <= u64::MAX,
                ;
                let x: u128 = self.decay_rate as u128 * (age as u128) / 1000;
                let e: u64 = if x >= EXP_LIMIT as u128 { 0 } else { exp_neg(x as u64) };
                proof {
                    assert(e == spec_exp_neg(self.decay_exponent(age as int)));
                    assert(i0 * e <= i0 * UNIT) by (nonlinear_arith)
                        requires
                            e <= UNIT,
                            i0 >= 0,
                    ;
                    assert(i0 * UNIT / (UNIT as int) == i0) by (nonlinear_arith);
                    assert(i0 * e / (UNIT as int) <= i0 * UNIT / (UNIT as int)) by (nonlinear_arith)
                        requires
                            i0 * e <= i0 * UNIT,
                    ;
                }
                (i0 * (e as u128) / (UNIT as u128)) as u64
            },
            DecayFunction::Linear => {
                let left: u128 = (self.ttl as i128 - age) as u128;
                let ttl: u128 = self.ttl as u128;
                proof {
                    assert(i0 * left <= i0 * ttl) by (nonlinear_arith)
                        requires
                            left <= ttl,
                            i0 >= 0,
                    ;
                    assert(i0 * ttl <= u64::MAX * u64::MAX) by (nonlinear_arith)
                        requires
                            0 <= i0 <= u64::MAX,
                            0 <= ttl <= u64::MAX,
                    ;
                    assert(i0 * ttl / (ttl as int) == i0) by (nonlinear_arith)
                        requires
                            ttl > 0,
                    ;
                    assert(i0 * left / (ttl as int) <= i0 * ttl / (ttl as int)) by (nonlinear_arith)
                        requires
                            i0 * left <= i0 * ttl,
                            ttl > 0,
                    ;
                }
                (i0 * left / ttl) as u64
            },
            DecayFunction::Step => self.intensity,
        }
    }

    /// The effective intensity at `current_time`.
    pub fn effective_intensity(&self, current_time: i64) -> (r: u64)
        ensures
            r == self.effective_at(current_time),
            r <= UNIT,
    {
        let base = self.compute_intensity(current_time);
        let boost: u128 = if self.reinforcement_count >= 5 {
            1_500_000
        } else {
            UNIT as u128 + 100_000 * (self.reinforcement_count as u128)
        };
        assert(base * self.confidence <= u64::MAX * u64::MAX) by (nonlinear_arith)
            requires
                0 <= base <= u64::MAX,
                0 <= self.confidence <= u64::MAX,
        ;
        let t: u128 = base as u128 * (self.confidence as u128);
        let full: u128 = UNIT as u128 * (UNIT as u128);
        if t >= full {
            assert(t * boost / (full as int) >= UNIT) by (nonlinear_arith)
                requires
                    t >= full,
                    boost >= UNIT,
                    full == UNIT * UNIT,
                    UNIT == 1_000_000,
            ;
            return UNIT;
        }
        assert(t * boost <= full * 1_500_000) by (nonlinear_arith)
            requires
                0 <= t < full,
                0 <= boost <= 1_500_000,
        ;
        let v: u128 = t * boost / full;
        if v > UNIT as u128 { UNIT } else { v as u64 }
    }

    /// Whether the signal has expired at `current_time`.
    pub fn is_expired(&self, current_time: i64) -> (r: bool)
        ensures
            r == self.expired_at(current_time),
    {
        let age: i128 = current_time as i128 - self.created_at as i128;
        age >= self.ttl as i128 || self.compute_intensity(current_time) < EXPIRY_FLOOR
    }

    /// `after` is this signal reinforced by `id`: unchanged where the
    /// reinforcement does not count; else `id` is added to the reinforcers,
    /// the count grows by one and the confidence is raised.
    pub open spec fn reinforces_to(&self, after: Signal, id: Seq<char>) -> bool {
        if self.accepts(id) {
            &&& names(after.reinforced_by@) == names(self.reinforced_by@).push(id)
            &&& after.reinforcement_count == self.reinforcement_count + 1
            &&& after.confidence == raised(
                self.confidence as nat,
                after.reinforcement_count as nat,
            )
            &&& after == (Signal {
                reinforced_by: after.reinforced_by,
                reinforcement_count: after.reinforcement_count,
                confidence: after.confidence,
                ..*self
            })
        } else {
            after == *self
        }
    }

    /// Counts the agreement of another worker. A worker counts once; each
    /// further worker raises the confidence by less.
    pub fn reinforce(&mut self, reinforcer_id: &str)
        ensures
            old(self).reinforces_to(*final(self), reinforcer_id@),
            old(self).wf() ==> final(self).wf(),
            old(self).wf() ==> old(self).confidence <= final(self).confidence <= UNIT,
            old(self).wf() ==> final(self).reinforced_by@.len() == final(self).reinforcement_count,
            final(self).reinforcement_count == old(self).reinforcement_count + (if old(
                self,
            ).accepts(reinforcer_id@) {
                1int
            } else {
                0int
            }),
    {
        if holds(&self.reinforced_by, reinforcer_id) || self.reinforcement_count == u32::MAX {
            return ;
        }
        let ghost before = names(self.reinforced_by@);
        self.reinforced_by.push(reinforcer_id.to_owned());
        assert(names(self.reinforced_by@) =~= before.push(reinforcer_id@));
        self.reinforcement_count = self.reinforcement_count + 1;
        let step: u64 = 200_000 / (2 + self.reinforcement_count as u64);
        self.confidence = if self.confidence >= UNIT {
            UNIT
        } else {
            clamp_unit(self.confidence + step)
        };
    }

    /// The key of `payload` sent by `origin_agent_id`.
    pub fn compute_origin_hash(payload: &OsintPayload, origin_agent_id: &str) -> (r: String)
        ensures
            r@ == origin_hash_of(*payload, origin_agent_id@),
            r@.len() == 16,
    {
        let json = string_of(&payload_json(payload));
        let mut data = json.as_str().as_bytes_vec();
        let agent = origin_agent_id.as_bytes_vec();
        let ghost head = data@;
        let mut i: usize = 0;
        while i < agent.len()
            invariant
                i <= agent.len(),
                data@ == head + agent@.take(i as int),
            decreases agent.len() - i,
        {
            data.push(agent[i]);
            i += 1;
        }
        assert(agent@.take(agent@.len() as int) =~= agent@);
        let digest = sha256(&data);
        let hex = to_hex(&digest);
        string_of(&prefix(&hex, 16))
    }
}

/// Collects what a signal is made of.
pub struct SignalBuilder {
    pub payload: OsintPayload,
    pub intensity: u64,
    pub ttl: u64,
    pub decay_rate: u64,
    pub decay_function: DecayFunction,
    pub confidence: u64,
    pub origin_agent_id: String,
}

impl SignalBuilder {
    /// Intensity and confidence are at most one.
    pub open spec fn wf(&self) -> bool {
        self.intensity <= UNIT && self.confidence <= UNIT
    }

    /// The builder as `new` returns it, but for the identity of the empty
    /// origin.
    pub open spec fn initial(payload: OsintPayload, origin: String) -> SignalBuilder {
        SignalBuilder {
            payload,
            intensity: UNIT,
            ttl: DEFAULT_TTL,
            decay_rate: DEFAULT_DECAY_RATE,
            decay_function: DecayFunction::Exponential,
            confidence: UNIT,
            origin_agent_id: origin,
        }
    }

    /// The signal that the builder describes, created at `now` under the
    /// tag `id`, but for the identity of its key and of its empty list.
    pub open spec fn signal(self, now: i64, id: String, key: String, none: Vec<String>) -> Signal {
        Signal {
            id,
            origin_hash: key,
            payload: self.payload,
            intensity: self.intensity,
            current_intensity: self.intensity,
            ttl: self.ttl,
            decay_rate: self.decay_rate,
            decay_function: self.decay_function,
            confidence: self.confidence,
            origin_agent_id: self.origin_agent_id,
            created_at: now,
            reinforcement_count: 0,
            reinforced_by: none,
        }
    }

    /// A builder with full intensity and confidence, the default lifetime
    /// and decay, and no origin.
    pub fn new(payload: OsintPayload) -> (b: SignalBuilder)
        ensures
            b == Self::initial(payload, b.origin_agent_id),
            b.origin_agent_id@.len() == 0,
            b.wf(),
    {
        SignalBuilder {
            payload,
            intensity: UNIT,
            ttl: DEFAULT_TTL,
            decay_rate: DEFAULT_DECAY_RATE,
            decay_function: DecayFunction::Exponential,
            confidence: UNIT,
            origin_agent_id: String::new(),
        }
    }

    /// Sets the initial intensity, limited to one.
    pub fn intensity(self, intensity: u64) -> (b: SignalBuilder)
        ensures
            b == (SignalBuilder { intensity: spec_clamp_unit(intensity as nat) as u64, ..self }),
    {
        SignalBuilder { intensity: clamp_unit(intensity), ..self }
    }

    /// Sets the lifetime in milliseconds.
    pub fn ttl(self, ttl: u64) -> (b: SignalBuilder)
        ensures
            b == (SignalBuilder { ttl, ..self }),
    {
        SignalBuilder { ttl, ..self }
    }

    /// Sets the decay rate in millionths per second.
    pub fn decay_rate(self, rate: u64) -> (b: SignalBuilder)
        ensures
            b == (SignalBuilder { decay_rate: rate, ..self }),
    {
        SignalBuilder { decay_rate: rate, ..self }
    }

    /// Sets the decay function.
    pub fn decay_function(self, func: DecayFunction) -> (b: SignalBuilder)
        ensures
            b == (SignalBuilder { decay_function: func, ..self }),
    {
        SignalBuilder { decay_function: func, ..self }
    }

    /// Sets the confidence, limited to one.
    pub fn confidence(self, confidence: u64) -> (b: SignalBuilder)
        ensures
            b == (SignalBuilder { confidence: spec_clamp_unit(confidence as nat) as u64, ..self }),
    {
        SignalBuilder { confidence: clamp_unit(confidence), ..self }
    }

    /// Sets the worker that sends the signal.
    pub fn origin(self, agent_id: &str) -> (b: SignalBuilder)
        ensures
            b.origin_agent_id@ == agent_id@,
            b == (SignalBuilder { origin_agent_id: b.origin_agent_id, ..self }),
    {
        SignalBuilder { origin_agent_id: agent_id.to_owned(), ..self }
    }

    /// The signal, created at `now` under the tag `id`.
    pub fn build_at(self, now: i64, id: String) -> (s: Signal)
        ensures
            s == self.signal(now, id, s.origin_hash, s.reinforced_by),
            s.addressed(),
            s.origin_hash@.len() == 16,
            s.reinforced_by@.len() == 0,
            self.wf() ==> s.wf(),
    {
        let origin_hash = Signal::compute_origin_hash(&self.payload, self.origin_agent_id.as_str());
        Signal {
            id,
            origin_hash,
            payload: self.payload,
            intensity: self.intensity,
            current_intensity: self.intensity,
            ttl: self.ttl,
            decay_rate: self.decay_rate,
            decay_function: self.decay_function,
            confidence: self.confidence,
            origin_agent_id: self.origin_agent_id,
            created_at: now,
            reinforcement_count: 0,
            reinforced_by: Vec::new(),
        }
    }

    /// The signal, created now under a fresh tag. The clock and the tag are
    /// whatever the system gives.
    pub fn build(self) -> (s: Signal)
        ensures
            s == self.signal(s.created_at, s.id, s.origin_hash, s.reinforced_by),
            s.addressed(),
            s.origin_hash@.len() == 16,
            s.reinforced_by@.len() == 0,
            self.wf() ==> s.wf(),
    {
        let now = now_millis();
        let id = fresh_id();
        self.build_at(now, id)
    }
}

/// A reinforced signal keeps its key, its payload and its times; where it
/// was well formed it stays so, and its confidence does not fall.
pub proof fn lemma_reinforces_to(before: Signal, after: Signal, id: Seq<char>)
    requires
        before.reinforces_to(after, id),
    ensures
        after.origin_hash == before.origin_hash,
        after.payload == before.payload,
        after.origin_agent_id == before.origin_agent_id,
        forall|now: i64| after.intensity_at(now) == before.intensity_at(now),
        forall|now: i64| after.expired_at(now) == before.expired_at(now),
        before.wf() ==> after.wf(),
        before.wf() ==> before.confidence <= after.confidence,
        before.wf() ==> after.confidence <= UNIT,
{
    if before.accepts(id) && before.wf() {
        lemma_raised_bounds(before.confidence as nat, after.reinforcement_count as nat);
        let a = names(after.reinforced_by@);
        let b = names(before.reinforced_by@);
        assert forall|i: int, j: int| 0 <= i < j < a.len() implies a[i] != a[j] by {
            if j == b.len() {
                assert(b[i] == a[i]);
                assert(b.contains(b[i]));
            } else {
                assert(b[i] == a[i] && b[j] == a[j]);
            }
        }
        assert(distinct(a));
        assert(after.reinforced_by@.len() == a.len());
        assert(before.reinforced_by@.len() == b.len());
        assert(after.intensity == before.intensity);
        assert(after.current_intensity == before.current_intensity);
    }
}

/// Ten seconds after its creation, a signal of full intensity that decays
/// exponentially at a tenth a second and lives longer has the intensity
/// 0.367879: `e^(-1)` to six places.
pub proof fn lemma_decay_after_ten_seconds(s: Signal, now: i64)
    requires
        s.decay_function == DecayFunction::Exponential,
        s.intensity == UNIT,
        s.decay_rate == 100_000,
        s.ttl > 10_000,
        now == s.created_at + 10_000,
    ensures
        s.intensity_at(now) == 367_879,
{
    lemma_exp_neg_one();
    assert(s.decay_exponent(10_000) == 1_000_000);
}

/// The raw intensity never exceeds the initial one, and the effective
/// intensity never exceeds one.
pub proof fn lemma_intensity_bounded(s: Signal, now: i64)
    ensures
        s.intensity_at(now) <= s.intensity,
        s.effective_at(now) <= UNIT,
{
    let age = s.age_at(now);
    let i0 = s.intensity as int;
    if 0 <= age < s.ttl {
        match s.decay_function {
            DecayFunction::Exponential => {
                let e = spec_exp_neg(s.decay_exponent(age)) as int;
                lemma_exp_neg_bounds(s.decay_exponent(age));
                assert(i0 * e <= i0 * UNIT) by (nonlinear_arith)
                    requires
                        0 <= e <= UNIT,
                        i0 >= 0,
                ;
                assert(i0 * UNIT / (UNIT as int) == i0) by (nonlinear_arith);
                assert(i0 * e / (UNIT as int) <= i0 * UNIT / (UNIT as int)) by (nonlinear_arith)
                    requires
                        i0 * e <= i0 * UNIT,
                ;
                assert(0 <= i0 * e) by (nonlinear_arith)
                    requires
                        0 <= e,
                        0 <= i0,
                ;
            },
            DecayFunction::Linear => {
                let left = s.ttl - age;
                let ttl = s.ttl as int;
                assert(i0 * left <= i0 * ttl) by (nonlinear_arith)
                    requires
                        0 <= left <= ttl,
                        i0 >= 0,
                ;
                assert(i0 * ttl / ttl == i0) by (nonlinear_arith)
                    requires
                        ttl > 0,
                ;
                assert(i0 * left / ttl <= i0 * ttl / ttl) by (nonlinear_arith)
                    requires
                        i0 * left <= i0 * ttl,
                        ttl > 0,
                ;
                assert(0 <= i0 * left) by (nonlinear_arith)
                    requires
                        0 <= left,
                        0 <= i0,
                ;
            },
            DecayFunction::Step => {},
        }
    }
}

/// What a reinforcement does to the list of reinforcers: the list stays
/// as long as the count says and holds no name twice; a new name is put at
/// its end and the others keep their places; and the same reinforcement
/// once more changes nothing.
pub proof fn lemma_reinforce_once(before: Signal, after: Signal, id: Seq<char>)
    requires
        before.wf(),
        before.reinforces_to(after, id),
    ensures
        after.reinforced_by@.len() == after.reinforcement_count,
        distinct(names(after.reinforced_by@)),
        after.reinforcement_count == before.reinforcement_count + (if before.accepts(id) {
            1int
        } else {
            0int
        }),
        names(after.reinforced_by@).take(before.reinforced_by@.len() as int) == names(
            before.reinforced_by@,
        ),
        before.reinforcement_count < u32::MAX ==> names(after.reinforced_by@).to_set() == names(
            before.reinforced_by@,
        ).to_set().insert(id),
        after.reinforces_to(after, id),
{
    lemma_reinforces_to(before, after, id);
    let a = names(after.reinforced_by@);
    let b = names(before.reinforced_by@);
    if before.accepts(id) {
        assert(a.take(b.len() as int) =~= b);
        assert(a.to_set() =~= b.to_set().insert(id)) by {
            assert forall|x: Seq<char>| a.to_set().contains(x) <==> b.to_set().insert(
                id,
            ).contains(x) by {
                if a.contains(x) {
                    let k = choose|k: int| 0 <= k < a.len() && a[k] == x;
                    if k < b.len() {
                        assert(b[k] == x);
                        assert(b.contains(x));
                    }
                }
                if b.contains(x) {
                    let k = choose|k: int| 0 <= k < b.len() && b[k] == x;
                    assert(a[k] == x);
                }
                if x == id {
                    assert(a[b.len() as int] == id);
                }
            }
        }
        assert(a[b.len() as int] == id);
        assert(a.contains(id));
    } else {
        assert(a.take(b.len() as int) =~= b);
        if before.reinforcement_count < u32::MAX {
            assert(b.contains(id));
            assert(b.to_set().insert(id) =~= b.to_set());
        }
    }
}

/// Signals of equal canonical payload and equal origin have the same key.
pub proof fn lemma_same_content_same_key(a: Signal, b: Signal)
    requires
        a.addressed(),
        b.addressed(),
        canonical_json(a.payload) == canonical_json(b.payload),
        a.origin_agent_id@ == b.origin_agent_id@,
    ensures
        a.origin_hash@ == b.origin_hash@,
{
}

/// Each reinforcement that counts raises the confidence by at most a tenth
/// over `1 + count / 2`, and never above one.
pub proof fn lemma_raised_bounds(confidence: nat, count: nat)
    requires
        confidence <= UNIT,
    ensures
        confidence <= raised(confidence, count) <= UNIT,
        raised(confidence, count) - confidence <= 200_000nat / (2 + count),
        count >= 1 ==> raised(confidence, count) - confidence <= 66_666,
{
    if count >= 1 {
        assert(200_000nat / (2 + count) <= 66_666) by (nonlinear_arith)
            requires
                count >= 1,
        ;
    }
}

} // verus!
