//! The scraper: fetches the pages that the filter let through and emits
//! their text.

use vstd::prelude::*;
use crate::agents::traits::{
    delivered, emit_all, fetches, fresh, is_success, note, noted, pulse, pulsed, subject,
    subject_of, subjects, success, unseen, AgentConfig, AgentError, Outgoing, Reply, Request, Step,
    HEARTBEAT_TTL,
};
use crate::field::{of_kind, refs, Field};
use crate::signals::{AgentType, OsintPayload, PayloadKind, Signal};
use crate::text::names;
use crate::tor::proxy::TorConfig;
use crate::tor::scraper::{body_text, limited, page_from, title_of};
use crate::units::UNIT;

verus! {

/// Confidence of a scraped page: 0.9.
pub const SCRAPER_CONFIDENCE: u64 = 900_000;

/// Lifetime of a scraped page: 180 seconds.
pub const SCRAPER_TTL: u64 = 180_000;

/// A page that is being fetched.
#[derive(Debug, Clone)]
pub struct Visit {
    pub url: String,
    pub title: String,
}

/// The scraper.
pub struct ScraperAgent {
    pub config: AgentConfig,
    pub tor_config: TorConfig,
    /// The addresses that were fetched or are being fetched
    pub scraped_urls: Vec<String>,
    /// The pages that are being fetched
    pub pending: Option<Vec<Visit>>,
}

/// The title of a filtered result.
pub open spec fn result_title(s: Signal) -> Seq<char> {
    match s.payload {
        OsintPayload::FilteredResult { title, .. } => title@,
        _ => Seq::empty(),
    }
}

/// `visits` are the first `visits.len()` of `sensed`, by address and title.
pub open spec fn visits_of(visits: Seq<Visit>, sensed: Seq<Signal>) -> bool {
    &&& visits.len() <= sensed.len()
    &&& forall|k: int|
        0 <= k < visits.len() ==> (#[trigger] visits[k]).url@ == subject_of(sensed[k])
            && visits[k].title@ == result_title(sensed[k])
}

/// The text that the reply at `i` holds for a visit: that of the page of a
/// successful request, cut to length, and none else.
pub open spec fn text_in(replies: Seq<Reply>, i: int) -> Seq<char> {
    if 0 <= i < replies.len() {
        match replies[i] {
            Reply::Page { status, body } => if is_success(status) {
                limited(body_text(body@))
            } else {
                Seq::empty()
            },
            _ => Seq::empty(),
        }
    } else {
        Seq::empty()
    }
}

/// The title that the reply at `i` holds for a visit: that of the page
/// where it has one, else the one under which the page was listed.
pub open spec fn title_in(replies: Seq<Reply>, i: int, listed: Seq<char>) -> Seq<char> {
    if 0 <= i < replies.len() {
        match replies[i] {
            Reply::Page { status, body } => match title_of(body@) {
                Some(t) => if is_success(status) {
                    t
                } else {
                    listed
                },
                None => listed,
            },
            _ => listed,
        }
    } else {
        listed
    }
}

/// `item` is the scraped page of `visit` as the reply at `i` shows it.
pub open spec fn is_scraped(item: Outgoing, visit: Visit, replies: Seq<Reply>, i: int) -> bool {
    &&& item.confidence == SCRAPER_CONFIDENCE
    &&& item.ttl == SCRAPER_TTL
    &&& item.payload matches OsintPayload::ScrapedContent { url, title, text, char_count }
    &&& url@ == visit.url@
    &&& title@ == title_in(replies, i, visit.title@)
    &&& text@ == text_in(replies, i)
    &&& char_count == text@.len()
}

/// `batch` holds, in the order of the visits, the scraped page of each
/// visit whose reply holds text.
pub open spec fn scrape_batch(batch: Seq<Outgoing>, visits: Seq<Visit>, replies: Seq<Reply>) -> bool
    decreases visits.len(),
{
    if visits.len() == 0 {
        batch.len() == 0
    } else {
        let i = visits.len() - 1;
        if text_in(replies, i).len() == 0 {
            scrape_batch(batch, visits.drop_last(), replies)
        } else {
            &&& batch.len() > 0
            &&& scrape_batch(batch.drop_last(), visits.drop_last(), replies)
            &&& is_scraped(batch.last(), visits.last(), replies, i)
        }
    }
}

impl ScraperAgent {
    /// A scraper that has fetched nothing yet.
    pub fn new(config: AgentConfig, tor_config: TorConfig) -> (a: ScraperAgent)
        ensures
            a.config == config,
            a.tor_config == tor_config,
            a.scraped_urls@.len() == 0,
            a.pending is None,
    {
        ScraperAgent { config, tor_config, scraped_urls: Vec::new(), pending: None }
    }

    /// A scraper behind the default proxy.
    pub fn with_default_tor(config: AgentConfig) -> (a: ScraperAgent)
        ensures
            a.config == config,
            a.scraped_urls@.len() == 0,
            a.pending is None,
    {
        ScraperAgent::new(config, TorConfig::default())
    }

    /// The worker's name.
    pub fn id(&self) -> (r: &str)
        ensures
            r@ == self.config.id@,
    {
        self.config.id.as_str()
    }

    /// The worker's kind.
    pub fn agent_type(&self) -> (r: &'static str)
        ensures
            r@ == "scraper"@,
    {
        "scraper"
    }

    /// The filtered results that reach the worker's threshold and whose
    /// page was not fetched yet.
    pub fn sense<'a>(&self, field: &'a Field) -> (out: Vec<&'a Signal>)
        ensures
            refs(out@) == fresh(
                of_kind(
                    field.live(),
                    field.time(),
                    self.config.sensing_threshold,
                    PayloadKind::FilteredResult,
                ),
                names(self.scraped_urls@),
            ),
    {
        unseen(
            field.sense_kind(self.config.sensing_threshold, PayloadKind::FilteredResult),
            &self.scraped_urls,
        )
    }

    /// What the beginning of an activation comes to: the first pages that
    /// are sensed, as many as may be fetched at once, are noted and fetched.
    pub open spec fn starts(&self, live: Seq<Signal>, time: i64, post: Self, step: Step) -> bool {
        &&& post.config == self.config
        &&& post.tor_config == self.tor_config
        &&& ({
            let sensed = fresh(
                of_kind(
                    live,
                    time,
                    self.config.sensing_threshold,
                    PayloadKind::FilteredResult,
                ),
                names(self.scraped_urls@),
            );
            let n = if sensed.len() <= self.config.max_concurrent {
                sensed.len() as int
            } else {
                self.config.max_concurrent as int
            };
            if sensed.len() == 0 {
                &&& step matches Step::Done(Err(AgentError::NoWork))
                &&& post.pending == self.pending
                &&& post.scraped_urls == self.scraped_urls
            } else {
                &&& step matches Step::Ask(requests)
                &&& requests@.len() == n
                &&& forall|k: int|
                    0 <= k < n ==> fetches(#[trigger] requests@[k], subject_of(sensed[k]))
                &&& post.pending matches Some(visits)
                &&& visits@.len() == n
                &&& visits_of(visits@, sensed)
                &&& names(post.scraped_urls@) == noted(
                    names(self.scraped_urls@),
                    subjects(sensed).take(n),
                )
            }
        })
    }

    /// Begins an activation: the first pages that the worker senses, as
    /// many as it may fetch at once, are noted and fetched. They stay noted
    /// whatever comes back.
    pub fn start(&mut self, field: &Field) -> (step: Step)
        ensures
            old(self).starts(field.live(), field.time(), *final(self), step),
    {
        let sensed = self.sense(field);
        if sensed.len() == 0 {
            return Step::Done(Err(AgentError::NoWork));
        }
        let ghost all = refs(sensed@);
        let ghost seen = names(self.scraped_urls@);
        let n = if sensed.len() <= self.config.max_concurrent {
            sensed.len()
        } else {
            self.config.max_concurrent
        };
        let mut requests: Vec<Request> = Vec::new();
        let mut visits: Vec<Visit> = Vec::new();
        let mut k: usize = 0;
        proof {
            assert(subjects(all).take(0) =~= Seq::<Seq<char>>::empty());
        }
        while k < n
            invariant
                k <= n,
                n <= sensed@.len(),
                all == refs(sensed@),
                self.config == old(self).config,
                self.tor_config == old(self).tor_config,
                self.pending == old(self).pending,
                names(self.scraped_urls@) == noted(seen, subjects(all).take(k as int)),
                requests@.len() == k,
                visits@.len() == k,
                forall|j: int| 0 <= j < k ==> fetches(#[trigger] requests@[j], subject_of(all[j])),
                forall|j: int|
                    0 <= j < k ==> (#[trigger] visits@[j]).url@ == subject_of(all[j])
                        && visits@[j].title@ == result_title(all[j]),
            decreases n - k,
        {
            proof {
                assert(all[k as int] == *sensed@[k as int]);
                let q = subjects(all).take(k + 1);
                assert(q.drop_last() =~= subjects(all).take(k as int));
                assert(q.last() == subject_of(all[k as int]));
            }
            let url = subject(sensed[k]);
            let title = match &sensed[k].payload {
                OsintPayload::FilteredResult { title, .. } => title.clone(),
                _ => String::new(),
            };
            note(&mut self.scraped_urls, url);
            requests.push(
                Request::Fetch { url: url.to_owned(), headers: Vec::new(), through_tor: true },
            );
            visits.push(Visit { url: url.to_owned(), title });
            k += 1;
        }
        self.pending = Some(visits);
        Step::Ask(requests)
    }

    /// The scraped pages that the replies hold for the visits.
    pub fn read(visits: &Vec<Visit>, replies: &Vec<Reply>) -> (batch: Vec<Outgoing>)
        ensures
            scrape_batch(batch@, visits@, replies@),
    {
        let mut batch: Vec<Outgoing> = Vec::new();
        let mut k: usize = 0;
        assert(visits@.take(0) =~= Seq::<Visit>::empty());
        while k < visits.len()
            invariant
                k <= visits.len(),
                scrape_batch(batch@, visits@.take(k as int), replies@),
            decreases visits.len() - k,
        {
            proof {
                assert(visits@.take(k + 1).drop_last() =~= visits@.take(k as int));
                assert(visits@.take(k + 1).last() == visits@[k as int]);
            }
            if k < replies.len() {
                match &replies[k] {
                    Reply::Page { status, body } => {
                        let page = page_from(
                            visits[k].url.as_str(),
                            success(*status),
                            body.as_str(),
                        );
                        if page.text.as_str().unicode_len() > 0 {
                            let title = match page.title {
                                Some(t) => t,
                                None => visits[k].title.clone(),
                            };
                            let ghost before = batch@;
                            batch.push(
                                Outgoing {
                                    payload: OsintPayload::ScrapedContent {
                                        url: visits[k].url.clone(),
                                        title,
                                        text: page.text,
                                        char_count: page.char_count,
                                    },
                                    confidence: SCRAPER_CONFIDENCE,
                                    ttl: SCRAPER_TTL,
                                },
                            );
                            assert(batch@.drop_last() =~= before);
                            assert(is_scraped(batch@.last(), visits@[k as int], replies@, k as int));
                        }
                    },
                    _ => {},
                }
            }
            k += 1;
        }
        assert(visits@.take(visits@.len() as int) =~= visits@);
        batch
    }

    /// What the end of an activation comes to: each page that holds text is
    /// emitted.
    pub open spec fn resumes(
        &self,
        live: Seq<Signal>,
        replies: Seq<Reply>,
        post: Self,
        after: Seq<Signal>,
        step: Step,
    ) -> bool {
        &&& post.config == self.config
        &&& post.scraped_urls == self.scraped_urls
        &&& post.pending is None
        &&& match self.pending {
            None => {
                &&& step matches Step::Done(Err(AgentError::NoWork))
                &&& after == live
            },
            Some(visits) => {
                &&& step matches Step::Done(Ok(hashes))
                &&& exists|batch: Seq<Outgoing>|
                    #[trigger] scrape_batch(batch, visits@, replies) && delivered(
                        live,
                        self.config.id@,
                        batch,
                        after,
                        names(hashes@),
                    )
            },
        }
    }

    /// Ends an activation with the replies, one for each page: each page
    /// that holds text is emitted.
    pub fn resume(&mut self, field: &mut Field, replies: Vec<Reply>) -> (step: Step)
        requires
            old(field).wf(),
        ensures
            final(field).wf(),
            crate::field::grown(old(field).live(), final(field).live()),
            final(field).time() == old(field).time(),
            final(field).past() == old(field).past(),
            old(field).sound() ==> final(field).sound(),
            old(self).resumes(old(field).live(), replies@, *final(self), final(field).live(), step),
    {
        let visits = match self.pending.take() {
            Some(v) => v,
            None => {
                return Step::Done(Err(AgentError::NoWork));
            },
        };
        let batch = ScraperAgent::read(&visits, &replies);
        let ghost b = batch@;
        let hashes = emit_all(field, self.config.id.as_str(), batch);
        assert(scrape_batch(b, visits@, replies@));
        Step::Done(Ok(hashes))
    }

    /// Emits the worker's heartbeat: free while fewer than ten pages were
    /// fetched, half free after.
    pub fn heartbeat(&self, field: &mut Field)
        requires
            old(field).wf(),
        ensures
            final(field).wf(),
            pulsed(
                old(field).live(),
                final(field).live(),
                self.config.id@,
                AgentType::Scraper,
                if self.scraped_urls@.len() < 10 {
                    UNIT
                } else {
                    500_000
                },
                HEARTBEAT_TTL,
            ),
            final(field).time() == old(field).time(),
            final(field).past() == old(field).past(),
            old(field).sound() ==> final(field).sound(),
    {
        let capacity: u64 = if self.scraped_urls.len() < 10 { UNIT } else { 500_000 };
        pulse(field, self.config.id.as_str(), AgentType::Scraper, capacity, HEARTBEAT_TTL);
    }
}


impl crate::agents::traits::OsintAgent for ScraperAgent {
    open spec fn ready(&self) -> bool {
        true
    }

    open spec fn spec_id(&self) -> Seq<char> {
        self.config.id@
    }

    open spec fn spec_agent_type(&self) -> Seq<char> {
        "scraper"@
    }

    open spec fn sensed(&self, live: Seq<Signal>, time: i64) -> Seq<Signal> {
        fresh(
            of_kind(
                live,
                time,
                self.config.sensing_threshold,
                PayloadKind::FilteredResult,
            ),
            names(self.scraped_urls@),
        )
    }

    open spec fn began(
        &self,
        live: Seq<Signal>,
        time: i64,
        post: Self,
        after: Seq<Signal>,
        step: Step,
    ) -> bool {
        &&& self.starts(live, time, post, step)
        &&& after == live
    }

    open spec fn proceeded(
        &self,
        live: Seq<Signal>,
        time: i64,
        replies: Seq<Reply>,
        post: Self,
        after: Seq<Signal>,
        step: Step,
    ) -> bool {
        self.resumes(live, replies, post, after, step)
    }

    open spec fn beat(&self, live: Seq<Signal>, after: Seq<Signal>) -> bool {
    pulsed(
            live,
            after,
            self.config.id@,
            AgentType::Scraper,
            if self.scraped_urls@.len() < 10 {
                UNIT
            } else {
                500_000
            },
            HEARTBEAT_TTL,
        )
    }

    fn id(&self) -> (r: &str) {
        ScraperAgent::id(self)
    }

    fn agent_type(&self) -> (r: &str) {
        ScraperAgent::agent_type(self)
    }

    fn sense<'a>(&self, field: &'a Field) -> (out: Vec<&'a Signal>) {
        let out = ScraperAgent::sense(self, field);
        proof {
            let first = |s: Signal|
                crate::field::wanted(
                    s,
                    field.time(),
                    self.config.sensing_threshold,
                    Some(PayloadKind::FilteredResult),
                );
            let sensed = field.live().filter(first);
            let second = |s: Signal|
                !names(self.scraped_urls@).contains(crate::agents::traits::subject_of(s));
            crate::field::lemma_filter_members(field.live(), first);
            crate::field::lemma_filter_members(sensed, second);
            assert forall|k: int| 0 <= k < out@.len() implies field.live().contains(
                *#[trigger] out@[k],
            ) by {
                assert(refs(out@)[k] == *out@[k]);
                assert(sensed.contains(sensed.filter(second)[k]));
            }
        }
        out
    }

    fn begin(&mut self, field: &mut Field) -> (step: Step) {
        ScraperAgent::start(self, field)
    }

    fn proceed(&mut self, field: &mut Field, replies: Vec<Reply>) -> (step: Step) {
        ScraperAgent::resume(self, field, replies)
    }

    fn heartbeat(&self, field: &mut Field) {
        ScraperAgent::heartbeat(self, field)
    }
}

} // verus!
