//! The refiner: has the language model reword each query of the user for
//! dark-web search engines.

use vstd::prelude::*;
use crate::agents::persona::REFINER_PROMPT;
use crate::agents::traits::{
    asks, delivered, emit_all, failure, failure_at, fresh, note, noted, posted, pulse, pulsed,
    subject_of, unseen, AgentConfig, AgentError, Outgoing, Reply, Request, Step, HEARTBEAT_TTL,
};
use crate::field::{of_kind, refs, Field};
use crate::signals::{AgentType, OsintPayload, PayloadKind, Signal};
use crate::text::{chars_of, names, text_of, trim, trimmed};
use crate::units::UNIT;

verus! {

/// What the model is told.
pub const REFINER_SYSTEM_PROMPT: &'static str = REFINER_PROMPT;

/// Confidence that a refined query carries in its payload: 0.9.
pub const REFINED_CONFIDENCE: u64 = 900_000;

/// Lifetime of a refined query: 120 seconds.
pub const REFINER_TTL: u64 = 120_000;

/// A query that the model was asked about.
#[derive(Debug, Clone)]
pub struct Asked {
    pub query: String,
    pub priority: u64,
}

/// The refiner.
pub struct RefinerAgent {
    pub config: AgentConfig,
    /// The queries that were refined
    pub processed_queries: Vec<String>,
    /// The queries that the model was asked about and has not answered yet
    pub pending: Vec<Asked>,
}

/// The priority of a user's query.
pub open spec fn priority_of(s: Signal) -> u64 {
    match s.payload {
        OsintPayload::UserQuery { priority, .. } => priority,
        _ => 0,
    }
}

/// `pending` are the queries of `sensed`, with their priorities.
pub open spec fn asked_of(pending: Seq<Asked>, sensed: Seq<Signal>) -> bool {
    &&& pending.len() == sensed.len()
    &&& forall|k: int|
        0 <= k < pending.len() ==> (#[trigger] pending[k]).query@ == subject_of(sensed[k])
            && pending[k].priority == priority_of(sensed[k])
}

/// The first `n` replies are completions.
pub open spec fn answered(replies: Seq<Reply>, n: nat) -> bool {
    n <= replies.len() && forall|j: int| 0 <= j < n ==> #[trigger] replies[j] is Completion
}

/// `item` is the refined query that the completion `text` makes of `asked`.
pub open spec fn is_refined(item: Outgoing, asked: Asked, text: Seq<char>) -> bool {
    &&& item.confidence == asked.priority
    &&& item.ttl == REFINER_TTL
    &&& item.payload matches OsintPayload::RefinedQuery { original, refined, confidence }
    &&& original@ == asked.query@
    &&& refined@ == trim(text)
    &&& confidence == REFINED_CONFIDENCE
}

/// `batch` holds the refined queries of the first `batch.len()` queries.
pub open spec fn refined_batch(batch: Seq<Outgoing>, pending: Seq<Asked>, replies: Seq<Reply>) -> bool {
    &&& batch.len() <= pending.len()
    &&& answered(replies, batch.len())
    &&& forall|k: int|
        0 <= k < batch.len() ==> is_refined(
            #[trigger] batch[k],
            pending[k],
            replies[k]->Completion_0@,
        )
}

/// The queries of the first `n` of `pending`.
pub open spec fn queries_of(pending: Seq<Asked>, n: int) -> Seq<Seq<char>> {
    pending.take(n).map_values(|a: Asked| a.query@)
}

/// What an activation comes to: the queries up to the first that the model
/// did not complete are refined, emitted and noted; if that is all of
/// them, the keys are returned, else the model's failure.
pub open spec fn refined_run(
    batch: Seq<Outgoing>,
    hashes: Seq<Seq<char>>,
    pending: Seq<Asked>,
    replies: Seq<Reply>,
    id: Seq<char>,
    before: Seq<Signal>,
    after: Seq<Signal>,
    seen_before: Seq<Seq<char>>,
    seen_after: Seq<Seq<char>>,
    step: Step,
) -> bool {
    &&& refined_batch(batch, pending, replies)
    &&& delivered(before, id, batch, after, hashes)
    &&& seen_after == noted(seen_before, queries_of(pending, batch.len() as int))
    &&& if batch.len() == pending.len() {
        step matches Step::Done(Ok(h)) && names(h@) == hashes
    } else {
        &&& step matches Step::Done(Err(AgentError::Llm(m))) && m@ == failure_at(
            replies,
            batch.len() as int,
        )
        &&& !(batch.len() < replies.len() && replies[batch.len() as int] is Completion)
    }
}

impl RefinerAgent {
    /// A refiner that has refined nothing yet.
    pub fn new(config: AgentConfig) -> (a: RefinerAgent)
        ensures
            a.config == config,
            a.processed_queries@.len() == 0,
            a.pending@.len() == 0,
    {
        RefinerAgent { config, processed_queries: Vec::new(), pending: Vec::new() }
    }

    /// The worker's name.
    pub fn id(&self) -> (r: &str)
        ensures
            r@ == self.config.id@,
    {
        self.config.id.as_str()
    }

    /// The worker's kind.
    pub fn agent_type(&self) -> (r: &'static str)
        ensures
            r@ == "refiner"@,
    {
        "refiner"
    }

    /// The user's queries that reach the worker's threshold and are not
    /// refined yet.
    pub fn sense<'a>(&self, field: &'a Field) -> (out: Vec<&'a Signal>)
        ensures
            refs(out@) == fresh(
                of_kind(
                    field.live(),
                    field.time(),
                    self.config.sensing_threshold,
                    PayloadKind::UserQuery,
                ),
                names(self.processed_queries@),
            ),
    {
        unseen(
            field.sense_kind(self.config.sensing_threshold, PayloadKind::UserQuery),
            &self.processed_queries,
        )
    }

    /// What the beginning of an activation comes to: with nothing sensed
    /// there is nothing to do; else the model is asked about every query that
    /// is sensed.
    pub open spec fn starts(&self, live: Seq<Signal>, time: i64, post: Self, step: Step) -> bool {
        &&& post.config == self.config
        &&& post.processed_queries == self.processed_queries
        &&& ({
            let sensed = fresh(
                of_kind(
                    live,
                    time,
                    self.config.sensing_threshold,
                    PayloadKind::UserQuery,
                ),
                names(self.processed_queries@),
            );
            if sensed.len() == 0 {
                &&& step matches Step::Done(Err(AgentError::NoWork))
                &&& post.pending == self.pending
            } else {
                &&& step matches Step::Ask(requests)
                &&& requests@.len() == sensed.len()
                &&& forall|k: int|
                    0 <= k < requests@.len() ==> asks(
                        #[trigger] requests@[k],
                        REFINER_SYSTEM_PROMPT@,
                        subject_of(sensed[k]),
                    )
                &&& asked_of(post.pending@, sensed)
            }
        })
    }

    /// Begins an activation: the model is asked about every query that the
    /// worker senses.
    pub fn start(&mut self, field: &Field) -> (step: Step)
        ensures
            old(self).starts(field.live(), field.time(), *final(self), step),
    {
        let sensed = self.sense(field);
        if sensed.len() == 0 {
            return Step::Done(Err(AgentError::NoWork));
        }
        let ghost all = refs(sensed@);
        let mut requests: Vec<Request> = Vec::new();
        let mut pending: Vec<Asked> = Vec::new();
        let mut k: usize = 0;
        while k < sensed.len()
            invariant
                k <= sensed.len(),
                all == refs(sensed@),
                requests@.len() == k,
                pending@.len() == k,
                forall|j: int|
                    0 <= j < k ==> asks(
                        #[trigger] requests@[j],
                        REFINER_SYSTEM_PROMPT@,
                        subject_of(all[j]),
                    ),
                forall|j: int|
                    0 <= j < k ==> (#[trigger] pending@[j]).query@ == subject_of(all[j])
                        && pending@[j].priority == priority_of(all[j]),
            decreases sensed.len() - k,
        {
            assert(all[k as int] == *sensed@[k as int]);
            let (query, priority) = match &sensed[k].payload {
                OsintPayload::UserQuery { query, priority } => (query.clone(), *priority),
                _ => (crate::agents::traits::subject(sensed[k]).to_owned(), 0),
            };
            requests.push(
                Request::Completion {
                    system: REFINER_SYSTEM_PROMPT.to_owned(),
                    user: query.clone(),
                },
            );
            pending.push(Asked { query, priority });
            k += 1;
        }
        self.pending = pending;
        Step::Ask(requests)
    }

    /// The refined queries that the replies make of the first queries, up
    /// to the first query that the model did not complete.
    pub fn refine(pending: &Vec<Asked>, replies: &Vec<Reply>) -> (batch: Vec<Outgoing>)
        ensures
            refined_batch(batch@, pending@, replies@),
            batch@.len() < pending@.len() ==> !(batch@.len() < replies@.len()
                && replies@[batch@.len() as int] is Completion),
    {
        let mut batch: Vec<Outgoing> = Vec::new();
        let mut k: usize = 0;
        while k < pending.len() && k < replies.len()
            invariant
                k <= pending.len(),
                k <= replies.len(),
                batch@.len() == k,
                refined_batch(batch@, pending@, replies@),
            decreases pending.len() - k,
        {
            match &replies[k] {
                Reply::Completion(text) => {
                    let refined = text_of(&trimmed(&chars_of(text.as_str())));
                    batch.push(
                        Outgoing {
                            payload: OsintPayload::RefinedQuery {
                                original: pending[k].query.clone(),
                                refined,
                                confidence: REFINED_CONFIDENCE,
                            },
                            confidence: pending[k].priority,
                            ttl: REFINER_TTL,
                        },
                    );
                },
                _ => {
                    return batch;
                },
            }
            k += 1;
        }
        batch
    }

    /// What the end of an activation comes to: the queries up to the first
    /// that the model did not complete are refined, emitted and noted.
    pub open spec fn resumes(
        &self,
        live: Seq<Signal>,
        replies: Seq<Reply>,
        post: Self,
        after: Seq<Signal>,
        step: Step,
    ) -> bool {
        &&& post.config == self.config
        &&& post.pending@.len() == 0
        &&& self.pending@.len() == 0 ==> {
            &&& step matches Step::Done(Err(AgentError::NoWork))
            &&& after == live
            &&& post.processed_queries == self.processed_queries
        }
        &&& self.pending@.len() > 0 ==> exists|batch: Seq<Outgoing>, hashes: Seq<Seq<char>>| #[trigger]
            refined_run(
                batch,
                hashes,
                self.pending@,
                replies,
                self.config.id@,
                live,
                after,
                names(self.processed_queries@),
                names(post.processed_queries@),
                step,
            )
    }

    /// Ends an activation with the model's replies, one for each query that
    /// it was asked about.
    pub fn resume(&mut self, field: &mut Field, replies: Vec<Reply>) -> (step: Step)
        requires
            old(field).wf(),
        ensures
            final(field).wf(),
            crate::field::grown(old(field).live(), final(field).live()),
            final(field).time() == old(field).time(),
            final(field).past() == old(field).past(),
            old(field).sound() ==> final(field).sound(),
            old(self).resumes(old(field).live(), replies@, *final(self), final(field).live(), step),
    {
        let mut pending: Vec<Asked> = Vec::new();
        core::mem::swap(&mut self.pending, &mut pending);
        if pending.len() == 0 {
            return Step::Done(Err(AgentError::NoWork));
        }
        let batch = RefinerAgent::refine(&pending, &replies);
        let n = batch.len();
        let ghost b = batch@;
        let ghost seen = names(self.processed_queries@);
        let mut k: usize = 0;
        proof {
            assert(queries_of(pending@, 0) =~= Seq::<Seq<char>>::empty());
        }
        while k < n
            invariant
                k <= n,
                n <= pending@.len(),
                self.config == old(self).config,
                self.pending@.len() == 0,
                names(self.processed_queries@) == noted(seen, queries_of(pending@, k as int)),
            decreases n - k,
        {
            proof {
                let q = queries_of(pending@, k + 1);
                assert(q.drop_last() =~= queries_of(pending@, k as int));
                assert(q.last() == pending@[k as int].query@);
            }
            note(&mut self.processed_queries, pending[k].query.as_str());
            k += 1;
        }
        let hashes = emit_all(field, self.config.id.as_str(), batch);
        let ghost h = names(hashes@);
        let step = if n == pending.len() {
            Step::Done(Ok(hashes))
        } else {
            Step::Done(Err(failure(&replies, n)))
        };
        assert(refined_run(
            b,
            h,
            pending@,
            replies@,
            self.config.id@,
            old(field).live(),
            field.live(),
            seen,
            names(self.processed_queries@),
            step,
        ));
        step
    }

    /// Emits the worker's heartbeat: it is free.
    pub fn heartbeat(&self, field: &mut Field)
        requires
            old(field).wf(),
        ensures
            final(field).wf(),
            pulsed(
                old(field).live(),
                final(field).live(),
                self.config.id@,
                AgentType::Refiner,
                UNIT,
                HEARTBEAT_TTL,
            ),
            final(field).time() == old(field).time(),
            final(field).past() == old(field).past(),
            old(field).sound() ==> final(field).sound(),
    {
        pulse(field, self.config.id.as_str(), AgentType::Refiner, UNIT, HEARTBEAT_TTL);
    }
}


impl crate::agents::traits::OsintAgent for RefinerAgent {
    open spec fn ready(&self) -> bool {
        true
    }

    open spec fn spec_id(&self) -> Seq<char> {
        self.config.id@
    }

    open spec fn spec_agent_type(&self) -> Seq<char> {
        "refiner"@
    }

    open spec fn sensed(&self, live: Seq<Signal>, time: i64) -> Seq<Signal> {
        fresh(
            of_kind(
                live,
                time,
                self.config.sensing_threshold,
                PayloadKind::UserQuery,
            ),
            names(self.processed_queries@),
        )
    }

    open spec fn began(
        &self,
        live: Seq<Signal>,
        time: i64,
        post: Self,
        after: Seq<Signal>,
        step: Step,
    ) -> bool {
        &&& self.starts(live, time, post, step)
        &&& after == live
    }

    open spec fn proceeded(
        &self,
        live: Seq<Signal>,
        time: i64,
        replies: Seq<Reply>,
        post: Self,
        after: Seq<Signal>,
        step: Step,
    ) -> bool {
        self.resumes(live, replies, post, after, step)
    }

    open spec fn beat(&self, live: Seq<Signal>, after: Seq<Signal>) -> bool {
    pulsed(
            live,
            after,
            self.config.id@,
            AgentType::Refiner,
            UNIT,
            HEARTBEAT_TTL,
        )
    }

    fn id(&self) -> (r: &str) {
        RefinerAgent::id(self)
    }

    fn agent_type(&self) -> (r: &str) {
        RefinerAgent::agent_type(self)
    }

    fn sense<'a>(&self, field: &'a Field) -> (out: Vec<&'a Signal>) {
        let out = RefinerAgent::sense(self, field);
        proof {
            let first = |s: Signal|
                crate::field::wanted(
                    s,
                    field.time(),
                    self.config.sensing_threshold,
                    Some(PayloadKind::UserQuery),
                );
            let sensed = field.live().filter(first);
            let second = |s: Signal|
                !names(self.processed_queries@).contains(crate::agents::traits::subject_of(s));
            crate::field::lemma_filter_members(field.live(), first);
            crate::field::lemma_filter_members(sensed, second);
            assert forall|k: int| 0 <= k < out@.len() implies field.live().contains(
                *#[trigger] out@[k],
            ) by {
                assert(refs(out@)[k] == *out@[k]);
                assert(sensed.contains(sensed.filter(second)[k]));
            }
        }
        out
    }

    fn begin(&mut self, field: &mut Field) -> (step: Step) {
        RefinerAgent::start(self, field)
    }

    fn proceed(&mut self, field: &mut Field, replies: Vec<Reply>) -> (step: Step) {
        RefinerAgent::resume(self, field, replies)
    }

    fn heartbeat(&self, field: &mut Field) {
        RefinerAgent::heartbeat(self, field)
    }
}

/// `s` is the refined query that the worker `origin` makes of the user's
/// query `query` of priority `priority` and the completion `text`.
pub open spec fn is_refined_signal(
    s: Signal,
    origin: Seq<char>,
    query: Seq<char>,
    priority: u64,
    text: Seq<char>,
) -> bool {
    &&& s.payload matches OsintPayload::RefinedQuery { original, refined, confidence }
    &&& original@ == query
    &&& refined@ == trim(text)
    &&& confidence == REFINED_CONFIDENCE
    &&& s.confidence == crate::units::spec_clamp_unit(priority as nat)
    &&& s.ttl == REFINER_TTL
    &&& s.origin_agent_id@ == origin
}

/// A refiner that senses one query and gets a completion for it asks
/// once, emits one refined query made of the query and the trimmed
/// completion, with the query's priority as confidence, returns its key,
/// and notes the query, so that it does not sense it again.
pub proof fn lemma_refines_one_query(
    refiner: RefinerAgent,
    live: Seq<Signal>,
    time: i64,
    asking: RefinerAgent,
    asked: Step,
    text: String,
    post: RefinerAgent,
    after: Seq<Signal>,
    step: Step,
)
    requires
        fresh(
            of_kind(live, time, refiner.config.sensing_threshold, PayloadKind::UserQuery),
            names(refiner.processed_queries@),
        ).len() == 1,
        refiner.starts(live, time, asking, asked),
        asking.resumes(live, seq![Reply::Completion(text)], post, after, step),
    ensures
        ({
            let query = fresh(
                of_kind(live, time, refiner.config.sensing_threshold, PayloadKind::UserQuery),
                names(refiner.processed_queries@),
            )[0];
            &&& asked matches Step::Ask(requests)
            &&& requests@.len() == 1
            &&& asks(requests@[0], REFINER_SYSTEM_PROMPT@, subject_of(query))
            &&& step matches Step::Done(Ok(hashes))
            &&& hashes@.len() == 1
            &&& exists|s: Signal|
                {
                    &&& #[trigger] crate::field::emit_step(live, s, after)
                    &&& hashes@[0]@ == s.origin_hash@
                    &&& s.addressed()
                    &&& is_refined_signal(
                        s,
                        refiner.config.id@,
                        subject_of(query),
                        priority_of(query),
                        text@,
                    )
                }
            &&& names(post.processed_queries@).contains(subject_of(query))
        }),
{
    let sensed = fresh(
        of_kind(live, time, refiner.config.sensing_threshold, PayloadKind::UserQuery),
        names(refiner.processed_queries@),
    );
    let query = sensed[0];
    let replies = seq![Reply::Completion(text)];
    let pending = asking.pending@;
    assert(pending.len() == 1);
    assert(pending[0].query@ == subject_of(query));
    assert(replies[0] is Completion);
    let (batch, hashes) = choose|batch: Seq<Outgoing>, hashes: Seq<Seq<char>>| #[trigger]
        refined_run(
            batch,
            hashes,
            pending,
            replies,
            asking.config.id@,
            live,
            after,
            names(asking.processed_queries@),
            names(post.processed_queries@),
            step,
        );
    assert(batch.len() == 1);
    assert(is_refined(batch[0], pending[0], replies[0]->Completion_0@));
    assert(batch.drop_last().len() == 0);
    let (mid, s) = choose|mid: Seq<Signal>, s: Signal|
        {
            &&& delivered(live, asking.config.id@, batch.drop_last(), mid, hashes.drop_last())
            &&& posted(s, asking.config.id@, batch.last())
            &&& #[trigger] crate::field::emit_step(mid, s, after)
            &&& hashes.last() == s.origin_hash@
        };
    assert(mid == live);
    assert(batch.last() == batch[0]);
    assert(hashes.len() == 1);
    assert(hashes.last() == hashes[0]);
    let h = step->Done_0->Ok_0;
    assert(names(h@)[0] == h@[0]@);
    assert(is_refined_signal(
        s,
        refiner.config.id@,
        subject_of(query),
        priority_of(query),
        text@,
    ));
    let qs = queries_of(pending, 1);
    assert(pending.take(1) =~= pending);
    assert(qs =~= seq![subject_of(query)]);
    assert(qs.drop_last() =~= Seq::<Seq<char>>::empty());
    assert(qs.last() == subject_of(query));
    let seen = names(asking.processed_queries@);
    assert(noted(seen, qs.drop_last()) == seen);
    if seen.contains(subject_of(query)) {
        assert(noted(seen, qs) == seen);
    } else {
        assert(noted(seen, qs) == seen.push(subject_of(query)));
        assert(seen.push(subject_of(query))[seen.len() as int] == subject_of(query));
    }
}

} // verus!
