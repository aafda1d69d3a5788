//! What all workers share: their configuration, their errors, the way
//! they put signals into the field, and the way they ask the outside world
//! for what they cannot compute.
//!
//! A worker never waits. Where it needs a completion or a page, it returns
//! the requests; whoever drives it performs them and hands the replies
//! back.

use vstd::prelude::*;
use vstd::string::StringExecFns;
use crate::field::{
    emit_step, grown, lemma_emit_grows, lemma_filter_step, lemma_grown_twice, refs, Field,
};
use crate::signals::{
    fresh_id, AgentType, DecayFunction, OsintPayload, Signal, DEFAULT_DECAY_RATE,
};
use crate::text::{chars_of, holds, names, prefix, string_of};
use crate::units::{spec_clamp_unit, UNIT};

verus! {

/// Lifetime of a heartbeat: ten seconds.
pub const HEARTBEAT_TTL: u64 = 10_000;

/// What can go wrong in a language model backend.
#[derive(Debug, Clone)]
pub enum LlmError {
    /// The service refused or failed
    Api(String),
    /// The backend is not set up
    Config(String),
    /// Too many requests
    RateLimited,
    /// The service returned nothing
    EmptyResponse,
}

/// Why a worker emitted nothing.
#[derive(Debug, Clone)]
pub enum AgentError {
    /// The language model failed
    Llm(String),
    /// The network failed
    Network(String),
    /// A reply could not be read
    Parse(String),
    /// Nothing to do
    NoWork,
    /// The worker's stage is not reached yet
    NotReady(String),
}

impl LlmError {
    /// The error in words.
    pub open spec fn text(&self) -> Seq<char> {
        match self {
            LlmError::Api(m) => "API error: "@ + m@,
            LlmError::Config(m) => "Configuration error: "@ + m@,
            LlmError::RateLimited => "Rate limited"@,
            LlmError::EmptyResponse => "Empty response"@,
        }
    }

    /// The error in words.
    pub fn message(&self) -> (r: String)
        ensures
            r@ == self.text(),
    {
        match self {
            LlmError::Api(m) => "API error: ".to_owned().concat(m.as_str()),
            LlmError::Config(m) => "Configuration error: ".to_owned().concat(m.as_str()),
            LlmError::RateLimited => "Rate limited".to_owned(),
            LlmError::EmptyResponse => "Empty response".to_owned(),
        }
    }
}

impl AgentError {
    /// The error in words.
    pub open spec fn text(&self) -> Seq<char> {
        match self {
            AgentError::Llm(m) => "LLM error: "@ + m@,
            AgentError::Network(m) => "Network error: "@ + m@,
            AgentError::Parse(m) => "Parse error: "@ + m@,
            AgentError::NoWork => "No work available"@,
            AgentError::NotReady(m) => "Agent not ready: "@ + m@,
        }
    }

    /// The error in words.
    pub fn message(&self) -> (r: String)
        ensures
            r@ == self.text(),
    {
        match self {
            AgentError::Llm(m) => "LLM error: ".to_owned().concat(m.as_str()),
            AgentError::Network(m) => "Network error: ".to_owned().concat(m.as_str()),
            AgentError::Parse(m) => "Parse error: ".to_owned().concat(m.as_str()),
            AgentError::NoWork => "No work available".to_owned(),
            AgentError::NotReady(m) => "Agent not ready: ".to_owned().concat(m.as_str()),
        }
    }
}

/// A worker's configuration.
#[derive(Debug, Clone)]
pub struct AgentConfig {
    /// The worker's name
    pub id: String,
    /// Least effective intensity that the worker senses, in millionths
    pub sensing_threshold: u64,
    /// Most requests that the worker has in flight at once
    pub max_concurrent: usize,
}

impl Default for AgentConfig {
    /// A configuration with a random name of eight characters, a threshold
    /// of 0.1 and three requests at once.
    fn default() -> (c: AgentConfig)
        ensures
            c.id@.len() == 8,
            c.sensing_threshold == 100_000,
            c.max_concurrent == 3,
    {
        let id = fresh_id();
        let head = prefix(&chars_of(id.as_str()), 8);
        AgentConfig { id: string_of(&head), sensing_threshold: 100_000, max_concurrent: 3 }
    }
}

impl AgentConfig {
    /// The same configuration under the name `id`.
    pub fn with_id(self, id: &str) -> (c: AgentConfig)
        ensures
            c.id@ == id@,
            c.sensing_threshold == self.sensing_threshold,
            c.max_concurrent == self.max_concurrent,
    {
        AgentConfig { id: id.to_owned(), ..self }
    }

    /// The same configuration with another threshold.
    pub fn with_threshold(self, threshold: u64) -> (c: AgentConfig)
        ensures
            c == (AgentConfig { sensing_threshold: threshold, ..self }),
    {
        AgentConfig { sensing_threshold: threshold, ..self }
    }
}

/// A header of a request.
#[derive(Debug, Clone)]
pub struct Header {
    pub name: String,
    pub value: String,
}

/// What a worker asks of the outside world.
#[derive(Debug, Clone)]
pub enum Request {
    /// A completion of the language model
    Completion { system: String, user: String },
    /// A page, by HTTP GET; through the Tor proxy where `through_tor` says
    /// so
    Fetch { url: String, headers: Vec<Header>, through_tor: bool },
}

/// What the outside world answers.
#[derive(Debug, Clone)]
pub enum Reply {
    /// The language model's completion
    Completion(String),
    /// The language model failed
    NoCompletion(LlmError),
    /// The response to a fetch
    Page { status: u16, body: String },
    /// The fetch failed
    NoPage(String),
}

/// What a worker does next: it asks, or it is done for this activation.
#[derive(Debug)]
pub enum Step {
    /// Perform these requests and resume the worker with the replies, one
    /// for each request, in the same order
    Ask(Vec<Request>),
    /// The keys of the signals emitted in this activation, or why there are
    /// none
    Done(Result<Vec<String>, AgentError>),
}

/// A payload on its way into the field.
#[derive(Debug)]
pub struct Outgoing {
    pub payload: OsintPayload,
    /// The sender's confidence, in millionths
    pub confidence: u64,
    /// Lifetime in milliseconds
    pub ttl: u64,
}

/// `s` is the fresh signal that a worker named `origin` makes of `o`: full
/// intensity, the default decay, no reinforcement yet, and its key the
/// digest of payload and origin.
pub open spec fn posted(s: Signal, origin: Seq<char>, o: Outgoing) -> bool {
    &&& s.payload == o.payload
    &&& s.intensity == UNIT
    &&& s.current_intensity == UNIT
    &&& s.ttl == o.ttl
    &&& s.decay_rate == DEFAULT_DECAY_RATE
    &&& s.decay_function == DecayFunction::Exponential
    &&& s.confidence == spec_clamp_unit(o.confidence as nat)
    &&& s.origin_agent_id@ == origin
    &&& s.reinforcement_count == 0
    &&& s.reinforced_by@.len() == 0
    &&& s.addressed()
}

/// `after` is `before` after the worker `origin` has emitted a signal for
/// each payload of `batch`, first to last, and `hashes` are the keys of
/// those signals.
pub open spec fn delivered(
    before: Seq<Signal>,
    origin: Seq<char>,
    batch: Seq<Outgoing>,
    after: Seq<Signal>,
    hashes: Seq<Seq<char>>,
) -> bool
    decreases batch.len(),
{
    if batch.len() == 0 {
        after == before && hashes.len() == 0
    } else {
        &&& hashes.len() == batch.len()
        &&& exists|mid: Seq<Signal>, s: Signal|
            {
                &&& delivered(before, origin, batch.drop_last(), mid, hashes.drop_last())
                &&& posted(s, origin, batch.last())
                &&& #[trigger] emit_step(mid, s, after)
                &&& hashes.last() == s.origin_hash@
            }
    }
}

/// Delivering takes nothing from the field.
pub proof fn lemma_delivered_grows(
    before: Seq<Signal>,
    origin: Seq<char>,
    batch: Seq<Outgoing>,
    after: Seq<Signal>,
    hashes: Seq<Seq<char>>,
)
    requires
        delivered(before, origin, batch, after, hashes),
    ensures
        grown(before, after),
    decreases batch.len(),
{
    if batch.len() > 0 {
        let (mid, s) = choose|mid: Seq<Signal>, s: Signal|
            {
                &&& delivered(before, origin, batch.drop_last(), mid, hashes.drop_last())
                &&& posted(s, origin, batch.last())
                &&& #[trigger] emit_step(mid, s, after)
                &&& hashes.last() == s.origin_hash@
            };
        lemma_delivered_grows(before, origin, batch.drop_last(), mid, hashes.drop_last());
        lemma_emit_grows(mid, s, after);
        lemma_grown_twice(before, mid, after);
    }
}

/// Emits a signal for each payload of `batch` in the name of `origin`, and
/// returns their keys.
pub fn emit_all(field: &mut Field, origin: &str, batch: Vec<Outgoing>) -> (hashes: Vec<String>)
    requires
        old(field).wf(),
    ensures
        final(field).wf(),
        delivered(old(field).live(), origin@, batch@, final(field).live(), names(hashes@)),
        grown(old(field).live(), final(field).live()),
        hashes@.len() == batch@.len(),
        final(field).past() == old(field).past(),
        final(field).time() == old(field).time(),
        final(field).bound() == old(field).bound(),
        old(field).sound() ==> final(field).sound(),
{
    let mut hashes: Vec<String> = Vec::new();
    let ghost all = batch@;
    let ghost start = field.live();
    proof {
        assert(all.take(0) =~= Seq::<Outgoing>::empty());
        assert(names(hashes@) =~= Seq::<Seq<char>>::empty());
    }
    for o in it: batch
        invariant
            it.seq() == all,
            start == old(field).live(),
            field.wf(),
            hashes@.len() == it.index(),
            delivered(start, origin@, all.take(it.index() as int), field.live(), names(hashes@)),
            field.past() == old(field).past(),
            field.time() == old(field).time(),
            field.bound() == old(field).bound(),
            old(field).sound() ==> field.sound(),
    {
        let ghost i = it.index() as int;
        let ghost mid = field.live();
        let ghost keys = names(hashes@);
        let ghost item = o;
        let s = Signal::builder(o.payload).origin(origin).confidence(o.confidence).ttl(
            o.ttl,
        ).build();
        let ghost sent = s;
        let h = field.emit(s);
        hashes.push(h);
        proof {
            assert(posted(sent, origin@, item));
            assert(sent.wf());
            let part = all.take(i + 1);
            assert(part.drop_last() =~= all.take(i));
            assert(part.last() == item);
            assert(names(hashes@) =~= keys.push(sent.origin_hash@));
            assert(names(hashes@).drop_last() =~= keys);
            assert(emit_step(mid, sent, field.live()));
        }
    }
    assert(all.take(all.len() as int) =~= all);
    proof {
        lemma_delivered_grows(start, origin@, all, field.live(), names(hashes@));
    }
    hashes
}

/// Emits one signal in the name of `origin` and returns its key.
pub fn emit_one(field: &mut Field, origin: &str, item: Outgoing) -> (hash: String)
    requires
        old(field).wf(),
    ensures
        final(field).wf(),
        exists|s: Signal|
            posted(s, origin@, item) && #[trigger] emit_step(
                old(field).live(),
                s,
                final(field).live(),
            ) && hash@ == s.origin_hash@,
        grown(old(field).live(), final(field).live()),
        final(field).past() == old(field).past(),
        final(field).time() == old(field).time(),
        final(field).bound() == old(field).bound(),
        old(field).sound() ==> final(field).sound(),
{
    let ghost before = field.live();
    let s = Signal::builder(item.payload).origin(origin).confidence(item.confidence).ttl(
        item.ttl,
    ).build();
    let ghost sent = s;
    let h = field.emit(s);
    proof {
        assert(posted(sent, origin@, item));
        assert(emit_step(before, sent, field.live()));
        lemma_emit_grows(before, sent, field.live());
    }
    h
}

/// `s` is a heartbeat of the worker `id`.
pub open spec fn is_heartbeat(s: Signal, id: Seq<char>, kind: AgentType, capacity: u64, ttl: u64) -> bool {
    &&& s.origin_agent_id@ == id
    &&& s.ttl == ttl
    &&& s.confidence == UNIT
    &&& s.intensity == UNIT
    &&& s.addressed()
    &&& s.payload matches OsintPayload::Heartbeat { agent_id, agent_type, capacity: c }
    &&& agent_id@ == id
    &&& agent_type == kind
    &&& c == capacity
}

/// `after` is `before` after the worker `id` has emitted a heartbeat.
pub open spec fn pulsed(
    before: Seq<Signal>,
    after: Seq<Signal>,
    id: Seq<char>,
    kind: AgentType,
    capacity: u64,
    ttl: u64,
) -> bool {
    exists|s: Signal| #[trigger] emit_step(before, s, after) && is_heartbeat(s, id, kind, capacity, ttl)
}

/// Emits a heartbeat of the worker `id` that lives for `ttl` milliseconds.
pub fn pulse(field: &mut Field, id: &str, kind: AgentType, capacity: u64, ttl: u64)
    requires
        old(field).wf(),
        capacity <= UNIT,
    ensures
        final(field).wf(),
        pulsed(old(field).live(), final(field).live(), id@, kind, capacity, ttl),
        grown(old(field).live(), final(field).live()),
        final(field).past() == old(field).past(),
        final(field).time() == old(field).time(),
        final(field).bound() == old(field).bound(),
        old(field).sound() ==> final(field).sound(),
{
    let item = Outgoing {
        payload: OsintPayload::Heartbeat { agent_id: id.to_owned(), agent_type: kind, capacity },
        confidence: UNIT,
        ttl,
    };
    let ghost before = field.live();
    emit_one(field, id, item);
    proof {
        let s = choose|s: Signal|
            posted(s, id@, item) && #[trigger] emit_step(before, s, field.live());
        assert(is_heartbeat(s, id@, kind, capacity, ttl));
    }
}

/// The text by which a worker tells whether it has dealt with a signal:
/// the query of a query, the address of a result or of a page.
pub open spec fn subject_of(s: Signal) -> Seq<char> {
    match s.payload {
        OsintPayload::UserQuery { query, .. } => query@,
        OsintPayload::RefinedQuery { refined, .. } => refined@,
        OsintPayload::RawResult { url, .. } => url@,
        OsintPayload::FilteredResult { url, .. } => url@,
        OsintPayload::ScrapedContent { url, .. } => url@,
        OsintPayload::ExtractedArtifacts { source_url, .. } => source_url@,
        _ => s.origin_hash@,
    }
}

/// The text by which a worker tells whether it has dealt with a signal.
pub fn subject(s: &Signal) -> (r: &str)
    ensures
        r@ == subject_of(*s),
{
    match &s.payload {
        OsintPayload::UserQuery { query, .. } => query.as_str(),
        OsintPayload::RefinedQuery { refined, .. } => refined.as_str(),
        OsintPayload::RawResult { url, .. } => url.as_str(),
        OsintPayload::FilteredResult { url, .. } => url.as_str(),
        OsintPayload::ScrapedContent { url, .. } => url.as_str(),
        OsintPayload::ExtractedArtifacts { source_url, .. } => source_url.as_str(),
        _ => s.origin_hash.as_str(),
    }
}

/// The signals whose subject is not among `seen`.
pub open spec fn fresh(signals: Seq<Signal>, seen: Seq<Seq<char>>) -> Seq<Signal> {
    signals.filter(|s: Signal| !seen.contains(subject_of(s)))
}

/// The signals that the worker has not dealt with yet.
pub fn unseen<'a>(signals: Vec<&'a Signal>, seen: &Vec<String>) -> (out: Vec<&'a Signal>)
    ensures
        refs(out@) == fresh(refs(signals@), names(seen@)),
{
    let ghost all = refs(signals@);
    let ghost p = |s: Signal| !names(seen@).contains(subject_of(s));
    let mut out: Vec<&'a Signal> = Vec::new();
    let mut i: usize = 0;
    proof {
        reveal(Seq::filter);
        assert(all.take(0) =~= Seq::<Signal>::empty());
        assert(refs(out@) =~= all.take(0).filter(p));
    }
    while i < signals.len()
        invariant
            i <= signals.len(),
            all == refs(signals@),
            p == |s: Signal| !names(seen@).contains(subject_of(s)),
            refs(out@) == all.take(i as int).filter(p),
        decreases signals.len() - i,
    {
        let s = signals[i];
        proof {
            lemma_filter_step(all, i as int, p);
            assert(all[i as int] == *s);
        }
        if !holds(seen, subject(s)) {
            let ghost before = refs(out@);
            out.push(s);
            assert(refs(out@) =~= before.push(*s));
        }
        i += 1;
    }
    assert(all.take(signals@.len() as int) =~= all);
    out
}

/// Whether an HTTP status says that the request succeeded.
pub open spec fn is_success(status: u16) -> bool {
    200 <= status <= 299
}

/// Whether an HTTP status says that the request succeeded.
pub fn success(status: u16) -> (r: bool)
    ensures
        r == is_success(status),
{
    200 <= status && status <= 299
}

/// The request for a completion of `user` under `system`.
pub open spec fn asks(r: Request, system: Seq<char>, user: Seq<char>) -> bool {
    r matches Request::Completion { system: s, user: u } && s@ == system && u@ == user
}

/// The request for the page at `url` through Tor, without headers.
pub open spec fn fetches(r: Request, url: Seq<char>) -> bool {
    r matches Request::Fetch { url: u, headers, through_tor } && u@ == url && headers@.len() == 0
        && through_tor
}

/// `seen` with each text of `more` that it does not hold yet, in order.
pub open spec fn noted(seen: Seq<Seq<char>>, more: Seq<Seq<char>>) -> Seq<Seq<char>>
    decreases more.len(),
{
    if more.len() == 0 {
        seen
    } else {
        let before = noted(seen, more.drop_last());
        if before.contains(more.last()) {
            before
        } else {
            before.push(more.last())
        }
    }
}

/// Notes `s` in `seen` unless it is noted there.
pub fn note(seen: &mut Vec<String>, s: &str)
    ensures
        names(final(seen)@) == if names(old(seen)@).contains(s@) {
            names(old(seen)@)
        } else {
            names(old(seen)@).push(s@)
        },
{
    if !holds(seen, s) {
        let ghost before = names(seen@);
        seen.push(s.to_owned());
        assert(names(seen@) =~= before.push(s@));
    }
}

/// The subject of each signal.
pub open spec fn subjects(v: Seq<Signal>) -> Seq<Seq<char>> {
    v.map_values(|s: Signal| subject_of(s))
}

/// The signals were all taken from `live`.
pub open spec fn observed(out: Seq<&Signal>, live: Seq<Signal>) -> bool {
    forall|k: int| 0 <= k < out.len() ==> live.contains(*#[trigger] out[k])
}

/// What is filtered from the live signals was taken from them.
pub proof fn lemma_observed(out: Seq<&Signal>, live: Seq<Signal>, p: spec_fn(Signal) -> bool)
    requires
        refs(out) == live.filter(p),
    ensures
        observed(out, live),
{
    crate::field::lemma_filter_members(live, p);
    assert forall|k: int| 0 <= k < out.len() implies live.contains(*#[trigger] out[k]) by {
        assert(refs(out)[k] == *out[k]);
        assert(live.contains(live.filter(p)[k]));
    }
}

/// Why no completion stands at `at` of `replies`: the model's failure in
/// words; `no completion` where the reply is of another kind; `no reply`
/// where there is none.
pub open spec fn failure_at(replies: Seq<Reply>, at: int) -> Seq<char> {
    if 0 <= at < replies.len() {
        match replies[at] {
            Reply::NoCompletion(e) => e.text(),
            _ => "no completion"@,
        }
    } else {
        "no reply"@
    }
}

/// The error of an activation that found no completion at `at` of
/// `replies`.
pub fn failure(replies: &Vec<Reply>, at: usize) -> (e: AgentError)
    ensures
        e matches AgentError::Llm(m) && m@ == failure_at(replies@, at as int),
{
    if at < replies.len() {
        match &replies[at] {
            Reply::NoCompletion(e) => AgentError::Llm(e.message()),
            _ => AgentError::Llm("no completion".to_owned()),
        }
    } else {
        AgentError::Llm("no reply".to_owned())
    }
}

/// What a worker of the swarm does.
///
/// A worker observes the field without touching it, emits its heartbeat,
/// and takes its turn: it begins an activation, which may end at once or
/// ask for something, and goes on with the replies until the activation
/// ends. What each of these comes to is the worker's own to say; whatever
/// it is, it leaves the field's keys distinct and its time and history as
/// they were.
pub trait OsintAgent: Sized {
    /// What the worker holds is in order.
    spec fn ready(&self) -> bool;

    /// The worker's name.
    spec fn spec_id(&self) -> Seq<char>;

    /// The name of the worker's kind.
    spec fn spec_agent_type(&self) -> Seq<char>;

    /// The signals among `live` that concern the worker at `time`.
    spec fn sensed(&self, live: Seq<Signal>, time: i64) -> Seq<Signal>;

    /// Whether beginning an activation on the signals `live` at `time` may
    /// leave the worker as `post` and the signals as `after`, with `step`
    /// as its outcome.
    spec fn began(
        &self,
        live: Seq<Signal>,
        time: i64,
        post: Self,
        after: Seq<Signal>,
        step: Step,
    ) -> bool;

    /// Whether going on with `replies` on the signals `live` at `time` may
    /// leave the worker as `post` and the signals as `after`, with `step`
    /// as its outcome.
    spec fn proceeded(
        &self,
        live: Seq<Signal>,
        time: i64,
        replies: Seq<Reply>,
        post: Self,
        after: Seq<Signal>,
        step: Step,
    ) -> bool;

    /// Whether the worker's heartbeat may turn the signals `live` into
    /// `after`.
    spec fn beat(&self, live: Seq<Signal>, after: Seq<Signal>) -> bool;

    /// The worker's name.
    fn id(&self) -> (r: &str)
        ensures
            r@ == self.spec_id(),
    ;

    /// The name of the worker's kind.
    fn agent_type(&self) -> (r: &str)
        ensures
            r@ == self.spec_agent_type(),
    ;

    /// The live signals that concern the worker.
    fn sense<'a>(&self, field: &'a Field) -> (out: Vec<&'a Signal>)
        ensures
            refs(out@) == self.sensed(field.live(), field.time()),
            observed(out@, field.live()),
    ;

    /// Begins an activation.
    fn begin(&mut self, field: &mut Field) -> (step: Step)
        requires
            old(field).wf(),
            old(self).ready(),
        ensures
            old(self).began(
                old(field).live(),
                old(field).time(),
                *final(self),
                final(field).live(),
                step,
            ),
            final(field).wf(),
            final(self).ready(),
            final(self).spec_id() == old(self).spec_id(),
            grown(old(field).live(), final(field).live()),
            final(field).time() == old(field).time(),
            final(field).past() == old(field).past(),
            old(field).sound() ==> final(field).sound(),
    ;

    /// Goes on with an activation that asked for something.
    fn proceed(&mut self, field: &mut Field, replies: Vec<Reply>) -> (step: Step)
        requires
            old(field).wf(),
            old(self).ready(),
        ensures
            old(self).proceeded(
                old(field).live(),
                old(field).time(),
                replies@,
                *final(self),
                final(field).live(),
                step,
            ),
            final(field).wf(),
            final(self).ready(),
            final(self).spec_id() == old(self).spec_id(),
            grown(old(field).live(), final(field).live()),
            final(field).time() == old(field).time(),
            final(field).past() == old(field).past(),
            old(field).sound() ==> final(field).sound(),
    ;

    /// Emits the worker's heartbeat.
    fn heartbeat(&self, field: &mut Field)
        requires
            old(field).wf(),
        ensures
            self.beat(old(field).live(), final(field).live()),
            final(field).wf(),
            grown(old(field).live(), final(field).live()),
            final(field).time() == old(field).time(),
            final(field).past() == old(field).past(),
            old(field).sound() ==> final(field).sound(),
    ;
}

} // verus!
