//! The field: the shared bulletin on which signals live, decay and are
//! reinforced.
//!
//! The field holds each key at most once. A second signal under a key that
//! is live reinforces the first instead of joining it. Time moves only by
//! `tick`, which also retires what has expired into a bounded history.

use vstd::prelude::*;
use crate::signals::{now_millis, PayloadKind, Signal};
use crate::text::{distinct, same_text};

verus! {

/// History kept by a field unless it is made with another bound.
pub const DEFAULT_MAX_HISTORY: usize = 10_000;

/// The shared field.
#[derive(Debug, Clone)]
pub struct Field {
    signals: Vec<Signal>,
    history: Vec<Signal>,
    current_time: i64,
    max_history: usize,
}

/// What a tick did.
#[derive(Debug, Clone)]
pub struct FieldTickResult {
    /// Signals that expired in this tick
    pub expired_count: usize,
    /// Signals that are live after it
    pub active_count: usize,
}

/// Figures of a field.
#[derive(Debug, Clone)]
pub struct FieldStats {
    /// Number of live signals
    pub active_signals: usize,
    /// Sum of their intensities as of the last tick, in millionths
    pub total_intensity: u128,
    /// That sum over their number, rounded down; zero for an empty field
    pub avg_intensity: u128,
    /// Sum of their reinforcement counts
    pub total_reinforcements: u128,
    /// Number of signals in the history
    pub history_size: usize,
}

/// Live signals by the variant of their payload.
#[derive(Debug)]
pub struct SignalsByType<'a> {
    pub user_queries: Vec<&'a Signal>,
    pub refined_queries: Vec<&'a Signal>,
    pub raw_results: Vec<&'a Signal>,
    pub filtered_results: Vec<&'a Signal>,
    pub scraped_content: Vec<&'a Signal>,
    pub extracted_artifacts: Vec<&'a Signal>,
    pub enriched_artifacts: Vec<&'a Signal>,
    pub blockchain_analyses: Vec<&'a Signal>,
    pub paste_contents: Vec<&'a Signal>,
    pub insights: Vec<&'a Signal>,
    pub summaries: Vec<&'a Signal>,
    pub heartbeats: Vec<&'a Signal>,
    pub task_claims: Vec<&'a Signal>,
}

/// The key of each signal.
pub open spec fn keys(s: Seq<Signal>) -> Seq<Seq<char>> {
    s.map_values(|x: Signal| x.origin_hash@)
}

/// The signals that a list of references points to.
pub open spec fn refs(v: Seq<&Signal>) -> Seq<Signal> {
    v.map_values(|r: &Signal| *r)
}

/// The signal with its cached intensity brought up to `now`.
pub open spec fn refreshed(s: Signal, now: i64) -> Signal {
    Signal { current_intensity: s.intensity_at(now) as u64, ..s }
}

/// The signals of `s` that have not expired at `now`, refreshed.
pub open spec fn survivors(s: Seq<Signal>, now: i64) -> Seq<Signal> {
    s.filter(|x: Signal| !x.expired_at(now)).map_values(|x: Signal| refreshed(x, now))
}

/// The signals of `s` that have expired at `now`, refreshed.
pub open spec fn casualties(s: Seq<Signal>, now: i64) -> Seq<Signal> {
    s.filter(|x: Signal| x.expired_at(now)).map_values(|x: Signal| refreshed(x, now))
}

/// `past` with as many of `gone` appended, from the first on, as `bound`
/// leaves room for.
pub open spec fn retired(past: Seq<Signal>, gone: Seq<Signal>, bound: nat) -> Seq<Signal> {
    if past.len() >= bound {
        past
    } else if past.len() + gone.len() <= bound {
        past + gone
    } else {
        past + gone.take(bound - past.len())
    }
}

/// `after` is `before` with the signal under `key`, if there is one,
/// reinforced by `agent`.
pub open spec fn reinforce_step(
    before: Seq<Signal>,
    key: Seq<char>,
    agent: Seq<char>,
    after: Seq<Signal>,
) -> bool {
    &&& after.len() == before.len()
    &&& forall|i: int|
        0 <= i < before.len() ==> if before[i].origin_hash@ == key {
            (#[trigger] before[i]).reinforces_to(after[i], agent)
        } else {
            after[i] == before[i]
        }
}

/// `after` is `before` after `s` was emitted: where its key is live, that
/// signal is reinforced by the sender of `s`; else `s` is added at the end.
pub open spec fn emit_step(before: Seq<Signal>, s: Signal, after: Seq<Signal>) -> bool {
    if keys(before).contains(s.origin_hash@) {
        reinforce_step(before, s.origin_hash@, s.origin_agent_id@, after)
    } else {
        after == before.push(s)
    }
}

/// Whether a sensor with threshold `min` that looks for `kind`, or for any
/// variant, takes the signal at `now`.
pub open spec fn wanted(s: Signal, now: i64, min: u64, kind: Option<PayloadKind>) -> bool {
    &&& s.effective_at(now) >= min
    &&& match kind {
        Some(k) => s.payload.spec_kind() == k,
        None => true,
    }
}

impl<'a> SignalsByType<'a> {
    /// Each list holds the signals of `live` of its variant that a sensor
    /// with threshold `min` takes at `now`.
    pub open spec fn holds(&self, live: Seq<Signal>, now: i64, min: u64) -> bool {
        &&& refs(self.user_queries@) == of_kind(live, now, min, PayloadKind::UserQuery)
        &&& refs(self.refined_queries@) == of_kind(live, now, min, PayloadKind::RefinedQuery)
        &&& refs(self.raw_results@) == of_kind(live, now, min, PayloadKind::RawResult)
        &&& refs(self.filtered_results@) == of_kind(live, now, min, PayloadKind::FilteredResult)
        &&& refs(self.scraped_content@) == of_kind(live, now, min, PayloadKind::ScrapedContent)
        &&& refs(self.extracted_artifacts@) == of_kind(
            live,
            now,
            min,
            PayloadKind::ExtractedArtifacts,
        )
        &&& refs(self.enriched_artifacts@) == of_kind(
            live,
            now,
            min,
            PayloadKind::EnrichedArtifacts,
        )
        &&& refs(self.blockchain_analyses@) == of_kind(
            live,
            now,
            min,
            PayloadKind::BlockchainAnalysis,
        )
        &&& refs(self.paste_contents@) == of_kind(live, now, min, PayloadKind::PasteContent)
        &&& refs(self.insights@) == of_kind(live, now, min, PayloadKind::Insight)
        &&& refs(self.summaries@) == of_kind(live, now, min, PayloadKind::Summary)
        &&& refs(self.heartbeats@) == of_kind(live, now, min, PayloadKind::Heartbeat)
        &&& refs(self.task_claims@) == of_kind(live, now, min, PayloadKind::TaskClaim)
    }
}

/// The signals of `live` of variant `kind` that a sensor with threshold
/// `min` takes at `now`.
pub open spec fn of_kind(live: Seq<Signal>, now: i64, min: u64, kind: PayloadKind) -> Seq<Signal> {
    live.filter(|s: Signal| wanted(s, now, min, Some(kind)))
}

/// The sum of the cached intensities.
pub open spec fn intensity_sum(s: Seq<Signal>) -> nat
    decreases s.len(),
{
    if s.len() == 0 {
        0
    } else {
        intensity_sum(s.drop_last()) + s.last().current_intensity as nat
    }
}

/// The sum of the reinforcement counts.
pub open spec fn reinforcement_sum(s: Seq<Signal>) -> nat
    decreases s.len(),
{
    if s.len() == 0 {
        0
    } else {
        reinforcement_sum(s.drop_last()) + s.last().reinforcement_count as nat
    }
}

/// Filtering one element more either appends it or changes nothing.
pub proof fn lemma_filter_step<A>(s: Seq<A>, i: int, p: spec_fn(A) -> bool)
    requires
        0 <= i < s.len(),
    ensures
        s.take(i + 1).filter(p) == if p(s[i]) {
            s.take(i).filter(p).push(s[i])
        } else {
            s.take(i).filter(p)
        },
{
    reveal(Seq::filter);
    assert(s.take(i + 1).drop_last() =~= s.take(i));
}

/// Every filtered element comes from the sequence and meets the predicate.
pub proof fn lemma_filter_members<A>(s: Seq<A>, p: spec_fn(A) -> bool)
    ensures
        forall|k: int|
            0 <= k < s.filter(p).len() ==> p(#[trigger] s.filter(p)[k]) && s.contains(
                s.filter(p)[k],
            ),
    decreases s.len(),
{
    reveal(Seq::filter);
    if s.len() > 0 {
        let init = s.drop_last();
        lemma_filter_members(init, p);
        let f = s.filter(p);
        let g = init.filter(p);
        assert forall|k: int| 0 <= k < f.len() implies p(#[trigger] f[k]) && s.contains(f[k]) by {
            if k < g.len() {
                assert(f[k] == g[k]);
                assert(init.contains(g[k]));
                let m = choose|m: int| 0 <= m < init.len() && init[m] == g[k];
                assert(s[m] == g[k]);
            } else {
                assert(f[k] == s.last());
                assert(s[s.len() - 1] == s.last());
            }
        }
    }
}

/// A filtered sequence of signals with distinct keys has distinct keys.
pub proof fn lemma_filter_keeps_distinct(s: Seq<Signal>, p: spec_fn(Signal) -> bool)
    requires
        distinct(keys(s)),
    ensures
        distinct(keys(s.filter(p))),
    decreases s.len(),
{
    reveal(Seq::filter);
    if s.len() > 0 {
        let init = s.drop_last();
        assert(keys(init) =~= keys(s).drop_last());
        lemma_filter_keeps_distinct(init, p);
        let f = init.filter(p);
        if p(s.last()) {
            let out = f.push(s.last());
            lemma_filter_members(init, p);
            assert forall|i: int, j: int| 0 <= i < j < out.len() implies keys(out)[i] != keys(
                out,
            )[j] by {
                if j == f.len() {
                    assert(init.contains(f[i]));
                    let k = choose|k: int| 0 <= k < init.len() && init[k] == f[i];
                    assert(keys(s)[k] == f[i].origin_hash@);
                    assert(keys(s)[s.len() - 1] == s.last().origin_hash@);
                } else {
                    assert(keys(f)[i] != keys(f)[j]);
                }
            }
        }
    }
}

impl Field {
    /// The live signals, in the order in which they joined the field.
    pub closed spec fn live(&self) -> Seq<Signal> {
        self.signals@
    }

    /// The retired signals, oldest first.
    pub closed spec fn past(&self) -> Seq<Signal> {
        self.history@
    }

    /// The field's time in milliseconds since the epoch.
    pub closed spec fn time(&self) -> i64 {
        self.current_time
    }

    /// The most signals that the history takes.
    pub closed spec fn bound(&self) -> usize {
        self.max_history
    }

    /// No key is live twice, and the history keeps to its bound.
    pub open spec fn wf(&self) -> bool {
        &&& distinct(keys(self.live()))
        &&& self.past().len() <= self.bound()
    }

    /// Every live signal is well formed.
    pub open spec fn sound(&self) -> bool {
        forall|i: int| 0 <= i < self.live().len() ==> (#[trigger] self.live()[i]).wf()
    }

    /// An empty field whose time is `now`.
    pub fn new_at(now: i64) -> (f: Field)
        ensures
            f.live().len() == 0,
            f.past().len() == 0,
            f.time() == now,
            f.bound() == DEFAULT_MAX_HISTORY,
            f.wf(),
            f.sound(),
    {
        Field {
            signals: Vec::new(),
            history: Vec::new(),
            current_time: now,
            max_history: DEFAULT_MAX_HISTORY,
        }
    }

    /// An empty field whose time is that of the system's clock.
    pub fn new() -> (f: Field)
        ensures
            f.live().len() == 0,
            f.past().len() == 0,
            f.bound() == DEFAULT_MAX_HISTORY,
            f.wf(),
            f.sound(),
    {
        Field::new_at(now_millis())
    }

    /// The field's time.
    pub fn now(&self) -> (t: i64)
        ensures
            t == self.time(),
    {
        self.current_time
    }

    /// The index of the live signal under `hash`.
    fn position(&self, hash: &str) -> (r: Option<usize>)
        ensures
            match r {
                Some(i) => i < self.live().len() && self.live()[i as int].origin_hash@ == hash@,
                None => !keys(self.live()).contains(hash@),
            },
    {
        let mut i: usize = 0;
        while i < self.signals.len()
            invariant
                i <= self.signals.len(),
                forall|j: int| 0 <= j < i ==> keys(self.signals@)[j] != hash@,
            decreases self.signals.len() - i,
        {
            if same_text(self.signals[i].origin_hash.as_str(), hash) {
                return Some(i);
            }
            i += 1;
        }
        None
    }

    /// Reinforces the signal at `i` by `agent`.
    fn reinforce_at(&mut self, i: usize, agent: &str)
        requires
            old(self).wf(),
            i < old(self).live().len(),
        ensures
            final(self).wf(),
            reinforce_step(
                old(self).live(),
                old(self).live()[i as int].origin_hash@,
                agent@,
                final(self).live(),
            ),
            final(self).past() == old(self).past(),
            final(self).time() == old(self).time(),
            final(self).bound() == old(self).bound(),
            old(self).sound() ==> final(self).sound(),
    {
        let ghost before = self.signals@;
        let mut s = self.signals.remove(i);
        s.reinforce(agent);
        self.signals.insert(i, s);
        proof {
            let after = self.signals@;
            crate::signals::lemma_reinforces_to(before[i as int], after[i as int], agent@);
            assert(keys(after) =~= keys(before));
            assert forall|k: int| 0 <= k < before.len() implies if before[k].origin_hash@
                == before[i as int].origin_hash@ {
                (#[trigger] before[k]).reinforces_to(after[k], agent@)
            } else {
                after[k] == before[k]
            } by {
                if k != i {
                    assert(keys(before)[k] != keys(before)[i as int]);
                }
            }
            if old(self).sound() {
                assert forall|k: int| 0 <= k < after.len() implies (#[trigger] after[k]).wf() by {
                    if k != i {
                        assert(before[k].wf());
                    } else {
                        assert(before[i as int].wf());
                    }
                }
            }
        }
    }

    /// Puts a signal into the field and returns its key. Where the key is
    /// live already, that signal is reinforced by the sender instead.
    pub fn emit(&mut self, signal: Signal) -> (hash: String)
        requires
            old(self).wf(),
        ensures
            final(self).wf(),
            hash@ == signal.origin_hash@,
            emit_step(old(self).live(), signal, final(self).live()),
            keys(final(self).live()).contains(hash@),
            final(self).past() == old(self).past(),
            final(self).time() == old(self).time(),
            final(self).bound() == old(self).bound(),
            old(self).sound() && signal.wf() ==> final(self).sound(),
    {
        let hash = signal.origin_hash.clone();
        match self.position(hash.as_str()) {
            Some(i) => {
                self.reinforce_at(i, signal.origin_agent_id.as_str());
                proof {
                    crate::signals::lemma_reinforces_to(
                        old(self).live()[i as int],
                        self.live()[i as int],
                        signal.origin_agent_id@,
                    );
                    assert(keys(self.live())[i as int] == hash@);
                    assert(keys(old(self).live())[i as int] == hash@);
                }
            },
            None => {
                let ghost before = self.signals@;
                self.signals.push(signal);
                proof {
                    let after = self.signals@;
                    assert(keys(after) =~= keys(before).push(hash@));
                    assert forall|a: int, b: int| 0 <= a < b < after.len() implies keys(after)[a]
                        != keys(after)[b] by {
                        if b == before.len() {
                            assert(keys(before).contains(keys(before)[a]));
                        } else {
                            assert(keys(before)[a] != keys(before)[b]);
                        }
                    }
                    assert(keys(after)[before.len() as int] == hash@);
                    if old(self).sound() && signal.wf() {
                        assert forall|k: int| 0 <= k < after.len() implies (
                        #[trigger] after[k]).wf() by {
                            if k < before.len() {
                                assert(before[k].wf());
                            }
                        }
                    }
                }
            },
        }
        hash
    }

    /// Reinforces the live signal under `hash` by `agent_id` and tells
    /// whether there is one.
    pub fn reinforce(&mut self, hash: &str, agent_id: &str) -> (found: bool)
        requires
            old(self).wf(),
        ensures
            final(self).wf(),
            found == keys(old(self).live()).contains(hash@),
            reinforce_step(old(self).live(), hash@, agent_id@, final(self).live()),
            final(self).past() == old(self).past(),
            final(self).time() == old(self).time(),
            final(self).bound() == old(self).bound(),
            old(self).sound() ==> final(self).sound(),
    {
        match self.position(hash) {
            Some(i) => {
                self.reinforce_at(i, agent_id);
                assert(keys(old(self).live())[i as int] == hash@);
                true
            },
            None => {
                assert forall|k: int| 0 <= k < self.live().len() implies self.live()[k].origin_hash@
                    != hash@ by {
                    assert(keys(self.live())[k] == self.live()[k].origin_hash@);
                }
                false
            },
        }
    }

    /// The live signal under `hash`.
    pub fn get(&self, hash: &str) -> (r: Option<&Signal>)
        ensures
            match r {
                Some(s) => s.origin_hash@ == hash@ && self.live().contains(*s),
                None => !keys(self.live()).contains(hash@),
            },
    {
        match self.position(hash) {
            Some(i) => Some(&self.signals[i]),
            None => None,
        }
    }

    /// Moves the field's time on by `dt_ms` milliseconds, brings the cached
    /// intensity of every signal up to the new time, and retires the
    /// signals that have expired by then into the history, as far as its
    /// bound leaves room. Every signal that stays live is younger than its
    /// lifetime and has a raw intensity of at least 0.01 at the new time.
    pub fn tick(&mut self, dt_ms: u64) -> (r: FieldTickResult)
        requires
            old(self).wf(),
            old(self).time() + dt_ms <= i64::MAX,
        ensures
            final(self).time() == old(self).time() + dt_ms,
            final(self).live() == survivors(old(self).live(), final(self).time()),
            final(self).past() == retired(
                old(self).past(),
                casualties(old(self).live(), final(self).time()),
                old(self).bound() as nat,
            ),
            final(self).bound() == old(self).bound(),
            r.expired_count == casualties(old(self).live(), final(self).time()).len(),
            r.active_count == final(self).live().len(),
            final(self).time() >= old(self).time(),
            forall|i: int|
                0 <= i < final(self).live().len() ==> {
                    let s = #[trigger] final(self).live()[i];
                    &&& !s.expired_at(final(self).time())
                    &&& s.intensity_at(final(self).time()) >= crate::signals::EXPIRY_FLOOR
                    &&& final(self).time() - s.created_at < s.ttl
                },
            final(self).wf(),
            old(self).sound() ==> final(self).sound(),
    {
        let now: i64 = (self.current_time as i128 + dt_ms as i128) as i64;
        self.current_time = now;
        let mut all: Vec<Signal> = Vec::new();
        core::mem::swap(&mut self.signals, &mut all);
        let ghost before = all@;
        let ghost past = self.history@;
        let ghost bound = self.max_history as nat;
        let ghost alive = |x: Signal| !x.expired_at(now);
        let ghost dead = |x: Signal| x.expired_at(now);
        let mut keep: Vec<Signal> = Vec::new();
        let mut gone: usize = 0;
        let n = all.len();
        proof {
            reveal(Seq::filter);
            assert(before.take(0) =~= Seq::<Signal>::empty());
            assert(survivors(before.take(0), now) =~= Seq::<Signal>::empty());
            assert(casualties(before.take(0), now) =~= Seq::<Signal>::empty());
            assert(retired(past, casualties(before.take(0), now), bound) =~= past);
        }
        for s in it: all
            invariant
                it.seq() == before,
                self.current_time == now,
                self.max_history == bound,
                self.signals@.len() == 0,
                alive == |x: Signal| !x.expired_at(now),
                dead == |x: Signal| x.expired_at(now),
                keep@ == survivors(before.take(it.index() as int), now),
                self.history@ == retired(
                    past,
                    casualties(before.take(it.index() as int), now),
                    bound,
                ),
                gone == casualties(before.take(it.index() as int), now).len(),
                gone <= it.index(),
                before.len() == n,
                old(self).sound() ==> forall|k: int|
                    0 <= k < keep@.len() ==> (#[trigger] keep@[k]).wf(),
                old(self).sound() ==> forall|k: int|
                    0 <= k < before.len() ==> (#[trigger] before[k]).wf(),
        {
            let ghost i = it.index() as int;
            let ghost g = casualties(before.take(i), now);
            let mut s = s;
            let level = s.compute_intensity(now);
            let expired = s.is_expired(now);
            s.current_intensity = level;
            proof {
                assert(s == refreshed(before[i], now));
                lemma_filter_step(before, i, alive);
                lemma_filter_step(before, i, dead);
                if old(self).sound() {
                    assert(before[i].wf());
                    assert(s.wf());
                }
            }
            if expired {
                proof {
                    assert(casualties(before.take(i + 1), now) =~= g.push(s));
                    assert(survivors(before.take(i + 1), now) =~= survivors(before.take(i), now));
                    if past.len() < bound && past.len() + g.len() >= bound {
                        assert(g.push(s).take(bound - past.len()) =~= g.take(bound - past.len()));
                    }
                }
                if self.history.len() < self.max_history {
                    self.history.push(s);
                    assert(self.history@ =~= retired(past, g.push(s), bound));
                }
                gone = gone + 1;
            } else {
                proof {
                    assert(casualties(before.take(i + 1), now) =~= g);
                    assert(survivors(before.take(i + 1), now) =~= survivors(
                        before.take(i),
                        now,
                    ).push(s));
                }
                keep.push(s);
            }
        }
        proof {
            assert(before.take(before.len() as int) =~= before);
            lemma_filter_keeps_distinct(before, alive);
            lemma_filter_members(before, alive);
            let f = before.filter(alive);
            assert(keys(keep@) =~= keys(f));
            assert forall|k: int| 0 <= k < keep@.len() implies !(#[trigger] keep@[k]).expired_at(
                now,
            ) by {
                assert(alive(f[k]));
                assert(keep@[k] == refreshed(f[k], now));
            }
        }
        self.signals = keep;
        FieldTickResult { expired_count: gone, active_count: self.signals.len() }
    }

    /// The live signals that `wanted` admits, in the field's order.
    fn select(&self, min_intensity: u64, kind: Option<PayloadKind>) -> (out: Vec<&Signal>)
        ensures
            refs(out@) == self.live().filter(
                |s: Signal| wanted(s, self.time(), min_intensity, kind),
            ),
    {
        let ghost p = |s: Signal| wanted(s, self.time(), min_intensity, kind);
        let mut out: Vec<&Signal> = Vec::new();
        let mut i: usize = 0;
        proof {
            reveal(Seq::filter);
            assert(self.signals@.take(0) =~= Seq::<Signal>::empty());
            assert(refs(out@) =~= self.signals@.take(0).filter(p));
        }
        while i < self.signals.len()
            invariant
                i <= self.signals.len(),
                p == |s: Signal| wanted(s, self.time(), min_intensity, kind),
                refs(out@) == self.signals@.take(i as int).filter(p),
            decreases self.signals.len() - i,
        {
            let s = &self.signals[i];
            let strong = s.effective_intensity(self.current_time) >= min_intensity;
            let fits = match kind {
                Some(k) => s.payload.kind() == k,
                None => true,
            };
            proof {
                lemma_filter_step(self.signals@, i as int, p);
            }
            if strong && fits {
                let ghost before = refs(out@);
                out.push(s);
                assert(refs(out@) =~= before.push(*s));
            }
            i += 1;
        }
        assert(self.signals@.take(self.signals@.len() as int) =~= self.signals@);
        out
    }

    /// The live signals whose effective intensity is at least
    /// `min_intensity`.
    pub fn sense(&self, min_intensity: u64) -> (out: Vec<&Signal>)
        ensures
            refs(out@) == self.live().filter(
                |s: Signal| wanted(s, self.time(), min_intensity, None),
            ),
    {
        self.select(min_intensity, None)
    }

    /// The live signals of one variant whose effective intensity is at
    /// least `min_intensity`.
    pub fn sense_kind(&self, min_intensity: u64, kind: PayloadKind) -> (out: Vec<&Signal>)
        ensures
            refs(out@) == self.live().filter(
                |s: Signal| wanted(s, self.time(), min_intensity, Some(kind)),
            ),
    {
        self.select(min_intensity, Some(kind))
    }

    /// The live signals of one of two variants whose effective intensity is
    /// at least `min_intensity`.
    pub fn sense_either(&self, min_intensity: u64, a: PayloadKind, b: PayloadKind) -> (out: Vec<
        &Signal,
    >)
        ensures
            refs(out@) == self.live().filter(
                |s: Signal|
                    s.effective_at(self.time()) >= min_intensity && (s.payload.spec_kind() == a
                        || s.payload.spec_kind() == b),
            ),
    {
        let ghost p = |s: Signal|
            s.effective_at(self.time()) >= min_intensity && (s.payload.spec_kind() == a
                || s.payload.spec_kind() == b);
        let mut out: Vec<&Signal> = Vec::new();
        let mut i: usize = 0;
        proof {
            reveal(Seq::filter);
            assert(self.signals@.take(0) =~= Seq::<Signal>::empty());
            assert(refs(out@) =~= self.signals@.take(0).filter(p));
        }
        while i < self.signals.len()
            invariant
                i <= self.signals.len(),
                p == |s: Signal|
                    s.effective_at(self.time()) >= min_intensity && (s.payload.spec_kind() == a
                        || s.payload.spec_kind() == b),
                refs(out@) == self.signals@.take(i as int).filter(p),
            decreases self.signals.len() - i,
        {
            let s = &self.signals[i];
            let strong = s.effective_intensity(self.current_time) >= min_intensity;
            let k = s.payload.kind();
            proof {
                lemma_filter_step(self.signals@, i as int, p);
            }
            if strong && (k == a || k == b) {
                let ghost before = refs(out@);
                out.push(s);
                assert(refs(out@) =~= before.push(*s));
            }
            i += 1;
        }
        assert(self.signals@.take(self.signals@.len() as int) =~= self.signals@);
        out
    }

    /// The live signals for which `predicate` returns `true`.
    pub fn sense_where<F: Fn(&Signal) -> bool>(&self, predicate: F) -> (out: Vec<&Signal>)
        requires
            forall|s: &Signal| self.live().contains(*s) ==> predicate.requires((s,)),
            forall|s: &Signal|
                !(predicate.ensures((s,), true) && #[trigger] predicate.ensures((s,), false)),
        ensures
            refs(out@) == self.live().filter(|s: Signal| predicate.ensures((&s,), true)),
    {
        let ghost p = |s: Signal| predicate.ensures((&s,), true);
        let mut out: Vec<&Signal> = Vec::new();
        let mut i: usize = 0;
        proof {
            reveal(Seq::filter);
            assert(self.signals@.take(0) =~= Seq::<Signal>::empty());
            assert(refs(out@) =~= self.signals@.take(0).filter(p));
        }
        while i < self.signals.len()
            invariant
                i <= self.signals.len(),
                p == |s: Signal| predicate.ensures((&s,), true),
                refs(out@) == self.signals@.take(i as int).filter(p),
                forall|s: &Signal| self.live().contains(*s) ==> predicate.requires((s,)),
                forall|s: &Signal|
                    !(predicate.ensures((s,), true) && #[trigger] predicate.ensures((s,), false)),
            decreases self.signals.len() - i,
        {
            let s = &self.signals[i];
            assert(self.signals@[i as int] == *s);
            assert(self.live().contains(*s));
            assert(predicate.requires((s,)));
            let yes = predicate(s);
            proof {
                lemma_filter_step(self.signals@, i as int, p);
                assert(predicate.ensures((s,), yes));
            }
            if yes {
                let ghost before = refs(out@);
                out.push(s);
                assert(refs(out@) =~= before.push(*s));
            }
            i += 1;
        }
        assert(self.signals@.take(self.signals@.len() as int) =~= self.signals@);
        out
    }

    /// The live signals whose effective intensity is at least
    /// `min_intensity`, one list for each variant of payload.
    pub fn sense_by_type(&self, min_intensity: u64) -> (r: SignalsByType<'_>)
        ensures
            r.holds(self.live(), self.time(), min_intensity),
    {
        SignalsByType {
            user_queries: self.select(min_intensity, Some(PayloadKind::UserQuery)),
            refined_queries: self.select(min_intensity, Some(PayloadKind::RefinedQuery)),
            raw_results: self.select(min_intensity, Some(PayloadKind::RawResult)),
            filtered_results: self.select(min_intensity, Some(PayloadKind::FilteredResult)),
            scraped_content: self.select(min_intensity, Some(PayloadKind::ScrapedContent)),
            extracted_artifacts: self.select(min_intensity, Some(PayloadKind::ExtractedArtifacts)),
            enriched_artifacts: self.select(min_intensity, Some(PayloadKind::EnrichedArtifacts)),
            blockchain_analyses: self.select(min_intensity, Some(PayloadKind::BlockchainAnalysis)),
            paste_contents: self.select(min_intensity, Some(PayloadKind::PasteContent)),
            insights: self.select(min_intensity, Some(PayloadKind::Insight)),
            summaries: self.select(min_intensity, Some(PayloadKind::Summary)),
            heartbeats: self.select(min_intensity, Some(PayloadKind::Heartbeat)),
            task_claims: self.select(min_intensity, Some(PayloadKind::TaskClaim)),
        }
    }

    /// The field's figures.
    pub fn stats(&self) -> (r: FieldStats)
        ensures
            r.active_signals == self.live().len(),
            r.total_intensity == intensity_sum(self.live()),
            r.avg_intensity == if self.live().len() == 0 {
                0
            } else {
                intensity_sum(self.live()) / self.live().len()
            },
            r.total_reinforcements == reinforcement_sum(self.live()),
            r.history_size == self.past().len(),
    {
        let n = self.signals.len();
        let mut total: u128 = 0;
        let mut votes: u128 = 0;
        let mut i: usize = 0;
        assert(self.signals@.take(0) =~= Seq::<Signal>::empty());
        while i < n
            invariant
                i <= n,
                n == self.signals@.len(),
                total == intensity_sum(self.signals@.take(i as int)),
                votes == reinforcement_sum(self.signals@.take(i as int)),
                total <= i * u64::MAX,
                votes <= i * u64::MAX,
            decreases n - i,
        {
            proof {
                let t = self.signals@.take(i + 1);
                assert(t.drop_last() =~= self.signals@.take(i as int));
                assert(t.last() == self.signals@[i as int]);
                assert((i + 1) * u64::MAX == i * u64::MAX + u64::MAX) by (nonlinear_arith);
                assert((i + 1) * u64::MAX <= u64::MAX * u64::MAX) by (nonlinear_arith)
                    requires
                        i + 1 <= u64::MAX,
                ;
            }
            total = total + self.signals[i].current_intensity as u128;
            votes = votes + self.signals[i].reinforcement_count as u128;
            i += 1;
        }
        assert(self.signals@.take(n as int) =~= self.signals@);
        let avg: u128 = if n == 0 { 0 } else { total / (n as u128) };
        FieldStats {
            active_signals: n,
            total_intensity: total,
            avg_intensity: avg,
            total_reinforcements: votes,
            history_size: self.history.len(),
        }
    }

    /// The number of live signals.
    pub fn active_count(&self) -> (n: usize)
        ensures
            n == self.live().len(),
    {
        self.signals.len()
    }

    /// Removes every live signal.
    pub fn clear(&mut self)
        requires
            old(self).wf(),
        ensures
            final(self).live().len() == 0,
            final(self).past() == old(self).past(),
            final(self).time() == old(self).time(),
            final(self).bound() == old(self).bound(),
            final(self).wf(),
            final(self).sound(),
    {
        self.signals.clear();
    }
}

/// `after` holds every signal of `before` at its place, with its key and
/// payload, and maybe more behind them: nothing was taken from the field.
pub open spec fn grown(before: Seq<Signal>, after: Seq<Signal>) -> bool {
    &&& before.len() <= after.len()
    &&& forall|i: int|
        0 <= i < before.len() ==> (#[trigger] after[i]).origin_hash == before[i].origin_hash
            && after[i].payload == before[i].payload
}

/// Emitting takes nothing from the field.
pub proof fn lemma_emit_grows(before: Seq<Signal>, s: Signal, after: Seq<Signal>)
    requires
        emit_step(before, s, after),
    ensures
        grown(before, after),
{
    if keys(before).contains(s.origin_hash@) {
        assert forall|i: int| 0 <= i < before.len() implies (#[trigger] after[i]).origin_hash
            == before[i].origin_hash && after[i].payload == before[i].payload by {
            if before[i].origin_hash@ == s.origin_hash@ {
                crate::signals::lemma_reinforces_to(before[i], after[i], s.origin_agent_id@);
            }
        }
    }
}

/// What has grown twice has grown.
pub proof fn lemma_grown_twice(a: Seq<Signal>, b: Seq<Signal>, c: Seq<Signal>)
    requires
        grown(a, b),
        grown(b, c),
    ensures
        grown(a, c),
{
    assert forall|i: int| 0 <= i < a.len() implies (#[trigger] c[i]).origin_hash
        == a[i].origin_hash && c[i].payload == a[i].payload by {
        assert(b[i].origin_hash == a[i].origin_hash);
    }
}

/// A signal sent twice with the same content by the same worker is live
/// once, and counts that worker as its one reinforcer.
pub proof fn lemma_emit_twice(
    f0: Seq<Signal>,
    a: Signal,
    f1: Seq<Signal>,
    b: Signal,
    f2: Seq<Signal>,
)
    requires
        !keys(f0).contains(a.origin_hash@),
        a.reinforcement_count == 0,
        a.reinforced_by@.len() == 0,
        a.addressed(),
        b.addressed(),
        crate::canonical::canonical_json(a.payload) == crate::canonical::canonical_json(b.payload),
        a.origin_agent_id@ == b.origin_agent_id@,
        emit_step(f0, a, f1),
        emit_step(f1, b, f2),
    ensures
        f2.len() == f0.len() + 1,
        f2.take(f0.len() as int) == f0,
        f2.last().origin_hash == a.origin_hash,
        f2.last().payload == a.payload,
        f2.last().reinforcement_count == 1,
        crate::text::names(f2.last().reinforced_by@) == seq![a.origin_agent_id@],
{
    let n = f0.len() as int;
    assert(f1 == f0.push(a));
    assert(keys(f1)[n] == b.origin_hash@);
    assert(keys(f1).contains(b.origin_hash@));
    assert(f1[n].reinforces_to(f2[n], b.origin_agent_id@));
    assert(crate::text::names(a.reinforced_by@) =~= Seq::<Seq<char>>::empty());
    assert(a.accepts(b.origin_agent_id@));
    assert(crate::text::names(f2[n].reinforced_by@) =~= seq![a.origin_agent_id@]);
    assert forall|i: int| 0 <= i < n implies f2[i] == f0[i] by {
        assert(keys(f0)[i] == f0[i].origin_hash@);
        assert(keys(f0).contains(f0[i].origin_hash@));
        assert(f1[i] == f0[i]);
    }
    assert(f2.take(n) =~= f0);
}

/// A signal without lifetime has expired at every time from its creation
/// on.
pub proof fn lemma_zero_ttl_expired(s: Signal, now: i64)
    requires
        s.ttl == 0,
        s.created_at <= now,
    ensures
        s.expired_at(now),
{
}

/// A signal that has not expired is younger than its lifetime and has a raw
/// intensity of at least 0.01.
pub proof fn lemma_live_signal(s: Signal, now: i64)
    requires
        !s.expired_at(now),
    ensures
        s.intensity_at(now) >= crate::signals::EXPIRY_FLOOR,
        now - s.created_at < s.ttl,
{
}

impl Default for Field {
    fn default() -> (f: Field)
        ensures
            f.live().len() == 0,
            f.past().len() == 0,
            f.wf(),
    {
        Field::new()
    }
}

} // verus!
