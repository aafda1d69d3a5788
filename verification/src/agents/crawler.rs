//! The crawler: sends each refined query to every search engine in use and
//! emits the onion links that come back.

use vstd::prelude::*;
use crate::agents::traits::{
    delivered, emit_all, fetches, fresh, note, noted, pulse, pulsed, subject, subject_of,
    subjects, success, is_success, unseen, AgentConfig, AgentError, Outgoing, Reply, Request, Step,
    HEARTBEAT_TTL,
};
use crate::field::{of_kind, refs, Field};
use crate::search_engines::{active_engines, catalog, url_encode, SearchEngine};
use crate::signals::{AgentType, OsintPayload, PayloadKind, Signal};
use crate::text::{names, replace_all};
use crate::tor::crawler::{
    all_links, found_links, link_models, merge_results, page_models, parse_search_results,
    unique_links, LinkModel, SearchResult,
};
use crate::tor::proxy::TorConfig;
use crate::units::UNIT;

verus! {

/// Confidence of a raw result: 0.7.
pub const CRAWLER_CONFIDENCE: u64 = 700_000;

/// Lifetime of a raw result: 90 seconds.
pub const CRAWLER_TTL: u64 = 90_000;

/// The crawler.
pub struct CrawlerAgent {
    pub config: AgentConfig,
    pub tor_config: TorConfig,
    /// The queries that were sent out
    pub processed_queries: Vec<String>,
    /// For each query that is out, the names of the engines that were
    /// asked, in the order of the requests
    pub pending: Vec<Vec<String>>,
}

/// The engines in use.
pub open spec fn engines_in_use() -> Seq<SearchEngine> {
    catalog().filter(|e: SearchEngine| e.active)
}

/// The address of each engine's result page for `query`.
pub open spec fn engine_urls(engines: Seq<SearchEngine>, query: Seq<char>) -> Seq<Seq<char>> {
    engines.map_values(
        |e: SearchEngine| replace_all(e.url_template@, "{query}"@, url_encode(query)),
    )
}

/// The name of each engine.
pub open spec fn engine_names(engines: Seq<SearchEngine>) -> Seq<Seq<char>> {
    engines.map_values(|e: SearchEngine| e.name@)
}

/// The addresses to fetch for the queries: query after query, and for each
/// query engine after engine.
pub open spec fn crawl_urls(queries: Seq<Seq<char>>, engines: Seq<SearchEngine>) -> Seq<Seq<char>>
    decreases queries.len(),
{
    if queries.len() == 0 {
        Seq::empty()
    } else {
        crawl_urls(queries.drop_last(), engines) + engine_urls(engines, queries.last())
    }
}

/// The engine names of each group.
pub open spec fn groups_of(pending: Seq<Vec<String>>) -> Seq<Seq<Seq<char>>> {
    pending.map_values(|g: Vec<String>| names(g@))
}

/// The number of names in all groups.
pub open spec fn total(groups: Seq<Seq<Seq<char>>>) -> nat
    decreases groups.len(),
{
    if groups.len() == 0 {
        0
    } else {
        total(groups.drop_last()) + groups.last().len()
    }
}

/// The links that a reply holds: those of the page where it is the page of
/// a successful request, and none else.
pub open spec fn parsed(replies: Seq<Reply>, i: int, engine: Seq<char>) -> Seq<LinkModel> {
    if 0 <= i < replies.len() {
        match replies[i] {
            Reply::Page { status, body } => if is_success(status) {
                found_links(body@, engine)
            } else {
                Seq::empty()
            },
            _ => Seq::empty(),
        }
    } else {
        Seq::empty()
    }
}

/// The links of each reply of a group whose first reply is at `offset`.
pub open spec fn group_pages(group: Seq<Seq<char>>, replies: Seq<Reply>, offset: int) -> Seq<
    Seq<LinkModel>,
> {
    Seq::new(group.len(), |j: int| parsed(replies, offset + j, group[j]))
}

/// The links that the replies hold for the groups: group after group, and
/// within a group each link once.
pub open spec fn crawl_outcome(groups: Seq<Seq<Seq<char>>>, replies: Seq<Reply>) -> Seq<LinkModel>
    decreases groups.len(),
{
    if groups.len() == 0 {
        Seq::empty()
    } else {
        crawl_outcome(groups.drop_last(), replies) + unique_links(
            all_links(group_pages(groups.last(), replies, total(groups.drop_last()) as int)),
        )
    }
}

/// `batch` holds the raw result of each link.
pub open spec fn raw_batch(batch: Seq<Outgoing>, found: Seq<LinkModel>) -> bool {
    &&& batch.len() == found.len()
    &&& forall|k: int|
        0 <= k < batch.len() ==> {
            &&& (#[trigger] batch[k]).confidence == CRAWLER_CONFIDENCE
            &&& batch[k].ttl == CRAWLER_TTL
            &&& batch[k].payload matches OsintPayload::RawResult { url, title, engine }
            &&& url@ == found[k].url
            &&& title@ == found[k].title
            &&& engine@ == found[k].engine
        }
}

impl CrawlerAgent {
    /// The requests that are out can be counted.
    pub open spec fn wf(&self) -> bool {
        total(groups_of(self.pending@)) <= usize::MAX
    }

    /// A crawler that has sent out nothing yet.
    pub fn new(config: AgentConfig, tor_config: TorConfig) -> (a: CrawlerAgent)
        ensures
            a.config == config,
            a.tor_config == tor_config,
            a.processed_queries@.len() == 0,
            a.pending@.len() == 0,
            a.wf(),
    {
        let a = CrawlerAgent {
            config,
            tor_config,
            processed_queries: Vec::new(),
            pending: Vec::new(),
        };
        assert(groups_of(a.pending@) =~= Seq::<Seq<Seq<char>>>::empty());
        a
    }

    /// A crawler behind the default proxy.
    pub fn with_default_tor(config: AgentConfig) -> (a: CrawlerAgent)
        ensures
            a.config == config,
            a.processed_queries@.len() == 0,
            a.pending@.len() == 0,
            a.wf(),
    {
        CrawlerAgent::new(config, TorConfig::default())
    }

    /// The worker's name.
    pub fn id(&self) -> (r: &str)
        ensures
            r@ == self.config.id@,
    {
        self.config.id.as_str()
    }

    /// The worker's kind.
    pub fn agent_type(&self) -> (r: &'static str)
        ensures
            r@ == "crawler"@,
    {
        "crawler"
    }

    /// The refined queries that reach the worker's threshold and are not
    /// sent out yet.
    pub fn sense<'a>(&self, field: &'a Field) -> (out: Vec<&'a Signal>)
        ensures
            refs(out@) == fresh(
                of_kind(
                    field.live(),
                    field.time(),
                    self.config.sensing_threshold,
                    PayloadKind::RefinedQuery,
                ),
                names(self.processed_queries@),
            ),
    {
        unseen(
            field.sense_kind(self.config.sensing_threshold, PayloadKind::RefinedQuery),
            &self.processed_queries,
        )
    }

    /// What the beginning of an activation comes to: with nothing sensed
    /// there is nothing to do; else every query that is sensed is noted and
    /// sent to every engine in use.
    pub open spec fn starts(&self, live: Seq<Signal>, time: i64, post: Self, step: Step) -> bool {
        &&& post.config == self.config
        &&& post.tor_config == self.tor_config
        &&& ({
            let sensed = fresh(
                of_kind(
                    live,
                    time,
                    self.config.sensing_threshold,
                    PayloadKind::RefinedQuery,
                ),
                names(self.processed_queries@),
            );
            let urls = crawl_urls(subjects(sensed), engines_in_use());
            if sensed.len() == 0 {
                &&& step matches Step::Done(Err(AgentError::NoWork))
                &&& post.pending == self.pending
                &&& post.processed_queries == self.processed_queries
            } else {
                &&& step matches Step::Ask(requests)
                &&& requests@.len() == urls.len()
                &&& forall|k: int|
                    0 <= k < requests@.len() ==> fetches(#[trigger] requests@[k], urls[k])
                &&& groups_of(post.pending@) == Seq::new(
                    sensed.len(),
                    |i: int| engine_names(engines_in_use()),
                )
                &&& names(post.processed_queries@) == noted(
                    names(self.processed_queries@),
                    subjects(sensed),
                )
                &&& post.wf()
            }
        })
    }

    /// Begins an activation: every query that the worker senses is noted
    /// and sent to every engine in use.
    pub fn start(&mut self, field: &Field) -> (step: Step)
        ensures
            old(self).starts(field.live(), field.time(), *final(self), step),
    {
        let sensed = self.sense(field);
        if sensed.len() == 0 {
            return Step::Done(Err(AgentError::NoWork));
        }
        let ghost all = refs(sensed@);
        let ghost qs = subjects(all);
        let ghost seen = names(self.processed_queries@);
        let engines = active_engines();
        let ghost es = engines_in_use();
        let mut requests: Vec<Request> = Vec::new();
        let mut pending: Vec<Vec<String>> = Vec::new();
        let mut k: usize = 0;
        proof {
            assert(qs.take(0) =~= Seq::<Seq<char>>::empty());
            assert(groups_of(pending@) =~= Seq::<Seq<Seq<char>>>::empty());
        }
        while k < sensed.len()
            invariant
                k <= sensed.len(),
                all == refs(sensed@),
                qs == subjects(all),
                es == engines_in_use(),
                engines@ == es,
                self.config == old(self).config,
                self.tor_config == old(self).tor_config,
                names(self.processed_queries@) == noted(seen, qs.take(k as int)),
                requests@.len() == crawl_urls(qs.take(k as int), es).len(),
                forall|j: int|
                    0 <= j < requests@.len() ==> fetches(
                        #[trigger] requests@[j],
                        crawl_urls(qs.take(k as int), es)[j],
                    ),
                pending@.len() == k,
                forall|j: int| 0 <= j < k ==> names((#[trigger] pending@[j])@) == engine_names(es),
                total(groups_of(pending@)) == requests@.len(),
            decreases sensed.len() - k,
        {
            let query = subject(sensed[k]);
            proof {
                assert(all[k as int] == *sensed@[k as int]);
                assert(qs.take(k + 1).drop_last() =~= qs.take(k as int));
                assert(qs.take(k + 1).last() == query@);
            }
            note(&mut self.processed_queries, query);
            let ghost base = crawl_urls(qs.take(k as int), es);
            let ghost here = engine_urls(es, query@);
            let ghost count = requests@.len();
            let mut group: Vec<String> = Vec::new();
            let mut e: usize = 0;
            while e < engines.len()
                invariant
                    e <= engines.len(),
                    engines@ == es,
                    base == crawl_urls(qs.take(k as int), es),
                    here == engine_urls(es, query@),
                    count == base.len(),
                    requests@.len() == count + e,
                    forall|j: int|
                        0 <= j < requests@.len() ==> fetches(
                            #[trigger] requests@[j],
                            (base + here)[j],
                        ),
                    group@.len() == e,
                    forall|j: int| 0 <= j < e ==> (#[trigger] group@[j])@ == es[j].name@,
                decreases engines.len() - e,
            {
                let url = engines[e].build_url(query);
                requests.push(Request::Fetch { url, headers: Vec::new(), through_tor: true });
                group.push(engines[e].name.to_owned());
                e += 1;
            }
            proof {
                assert(names(group@) =~= engine_names(es));
                let before = groups_of(pending@);
                assert(groups_of(pending@.push(group)) =~= before.push(names(group@)));
                assert(groups_of(pending@.push(group)).drop_last() =~= before);
            }
            pending.push(group);
            k += 1;
        }
        proof {
            assert(qs.take(sensed@.len() as int) =~= qs);
            assert(groups_of(pending@) =~= Seq::new(all.len(), |i: int| engine_names(es)));
        }
        let asked = requests.len();
        assert(total(groups_of(pending@)) <= usize::MAX);
        self.pending = pending;
        Step::Ask(requests)
    }

    /// The links that the replies hold for one group of engines, each link
    /// once.
    fn gather(group: &Vec<String>, replies: &Vec<Reply>, offset: usize) -> (out: Vec<SearchResult>)
        requires
            offset + group@.len() <= usize::MAX,
        ensures
            link_models(out@) == unique_links(
                all_links(group_pages(names(group@), replies@, offset as int)),
            ),
    {
        let ghost want = group_pages(names(group@), replies@, offset as int);
        let mut pages: Vec<Vec<SearchResult>> = Vec::new();
        let mut j: usize = 0;
        while j < group.len()
            invariant
                j <= group.len(),
                offset + group@.len() <= usize::MAX,
                want == group_pages(names(group@), replies@, offset as int),
                pages@.len() == j,
                forall|i: int| 0 <= i < j ==> link_models((#[trigger] pages@[i])@) == want[i],
            decreases group.len() - j,
        {
            let at = offset + j;
            let page: Vec<SearchResult> = if at < replies.len() {
                match &replies[at] {
                    Reply::Page { status, body } => if success(*status) {
                        parse_search_results(body.as_str(), group[j].as_str())
                    } else {
                        Vec::new()
                    },
                    _ => Vec::new(),
                }
            } else {
                Vec::new()
            };
            proof {
                assert(names(group@)[j as int] == group@[j as int]@);
                assert(link_models(page@) =~= want[j as int]);
            }
            pages.push(page);
            j += 1;
        }
        assert(page_models(pages@) =~= want);
        merge_results(pages)
    }

    /// What the end of an activation comes to: the links on the pages of
    /// successful requests are emitted as raw results, for each query each
    /// link once.
    pub open spec fn resumes(
        &self,
        live: Seq<Signal>,
        replies: Seq<Reply>,
        post: Self,
        after: Seq<Signal>,
        step: Step,
    ) -> bool {
        &&& post.wf()
        &&& post.config == self.config
        &&& post.processed_queries == self.processed_queries
        &&& post.pending@.len() == 0
        &&& self.pending@.len() == 0 ==> {
            &&& step matches Step::Done(Err(AgentError::NoWork))
            &&& after == live
        }
        &&& self.pending@.len() > 0 ==> {
            &&& step matches Step::Done(Ok(hashes))
            &&& exists|batch: Seq<Outgoing>|
                #[trigger] raw_batch(
                    batch,
                    crawl_outcome(groups_of(self.pending@), replies),
                ) && delivered(
                    live,
                    self.config.id@,
                    batch,
                    after,
                    names(hashes@),
                )
        }
    }

    /// Ends an activation with the replies, one for each request: the links
    /// on the pages of successful requests are emitted as raw results, for
    /// each query each link once.
    pub fn resume(&mut self, field: &mut Field, replies: Vec<Reply>) -> (step: Step)
        requires
            old(field).wf(),
            old(self).wf(),
        ensures
            final(field).wf(),
            crate::field::grown(old(field).live(), final(field).live()),
            final(field).time() == old(field).time(),
            final(field).past() == old(field).past(),
            old(field).sound() ==> final(field).sound(),
            old(self).resumes(old(field).live(), replies@, *final(self), final(field).live(), step),
    {
        let mut pending: Vec<Vec<String>> = Vec::new();
        core::mem::swap(&mut self.pending, &mut pending);
        assert(groups_of(self.pending@) =~= Seq::<Seq<Seq<char>>>::empty());
        if pending.len() == 0 {
            return Step::Done(Err(AgentError::NoWork));
        }
        let ghost groups = groups_of(pending@);
        let mut batch: Vec<Outgoing> = Vec::new();
        let mut offset: usize = 0;
        let mut g: usize = 0;
        proof {
            assert(groups.take(0) =~= Seq::<Seq<Seq<char>>>::empty());
            lemma_total_grows(groups, 0);
        }
        while g < pending.len()
            invariant
                g <= pending.len(),
                groups == groups_of(pending@),
                total(groups) <= usize::MAX,
                offset == total(groups.take(g as int)),
                raw_batch(batch@, crawl_outcome(groups.take(g as int), replies@)),
            decreases pending.len() - g,
        {
            proof {
                assert(groups.take(g + 1).drop_last() =~= groups.take(g as int));
                assert(groups.take(g + 1).last() == names(pending@[g as int]@));
                lemma_total_grows(groups, g + 1);
            }
            let found = CrawlerAgent::gather(&pending[g], &replies, offset);
            let ghost base = crawl_outcome(groups.take(g as int), replies@);
            let ghost more = link_models(found@);
            let ghost held = found@;
            assert(base + more.take(0) =~= base);
            for r in it: found
                invariant
                    it.seq() == held,
                    more == link_models(held),
                    raw_batch(batch@, base + more.take(it.index() as int)),
            {
                let ghost i = it.index() as int;
                let ghost before = batch@;
                batch.push(
                    Outgoing {
                        payload: OsintPayload::RawResult {
                            url: r.url,
                            title: r.title,
                            engine: r.engine,
                        },
                        confidence: CRAWLER_CONFIDENCE,
                        ttl: CRAWLER_TTL,
                    },
                );
                proof {
                    let t = base + more.take(i + 1);
                    assert(t =~= (base + more.take(i)).push(r.model()));
                    assert forall|k: int| 0 <= k < batch@.len() implies {
                        &&& (#[trigger] batch@[k]).confidence == CRAWLER_CONFIDENCE
                        &&& batch@[k].ttl == CRAWLER_TTL
                        &&& batch@[k].payload matches OsintPayload::RawResult { url, title, engine }
                        &&& url@ == t[k].url
                        &&& title@ == t[k].title
                        &&& engine@ == t[k].engine
                    } by {
                        if k < before.len() {
                            assert(batch@[k] == before[k]);
                        }
                    }
                }
            }
            assert(more.take(more.len() as int) =~= more);
            offset = offset + pending[g].len();
            g += 1;
        }
        assert(groups.take(pending@.len() as int) =~= groups);
        let ghost b = batch@;
        let hashes = emit_all(field, self.config.id.as_str(), batch);
        assert(raw_batch(b, crawl_outcome(groups_of(old(self).pending@), replies@)));
        Step::Done(Ok(hashes))
    }

    /// Emits the worker's heartbeat: free while fewer than three queries
    /// are out, half free after.
    pub fn heartbeat(&self, field: &mut Field)
        requires
            old(field).wf(),
        ensures
            final(field).wf(),
            pulsed(
                old(field).live(),
                final(field).live(),
                self.config.id@,
                AgentType::Crawler,
                if self.processed_queries@.len() < 3 {
                    UNIT
                } else {
                    500_000
                },
                HEARTBEAT_TTL,
            ),
            final(field).time() == old(field).time(),
            final(field).past() == old(field).past(),
            old(field).sound() ==> final(field).sound(),
    {
        let capacity: u64 = if self.processed_queries.len() < 3 { UNIT } else { 500_000 };
        pulse(field, self.config.id.as_str(), AgentType::Crawler, capacity, HEARTBEAT_TTL);
    }
}

/// The first groups hold no more names than all of them.
pub proof fn lemma_total_grows(groups: Seq<Seq<Seq<char>>>, n: int)
    requires
        0 <= n <= groups.len(),
    ensures
        total(groups.take(n)) <= total(groups),
    decreases groups.len() - n,
{
    if n < groups.len() {
        lemma_total_grows(groups, n + 1);
        assert(groups.take(n + 1).drop_last() =~= groups.take(n));
    } else {
        assert(groups.take(n) =~= groups);
    }
}


impl crate::agents::traits::OsintAgent for CrawlerAgent {
    open spec fn ready(&self) -> bool {
        CrawlerAgent::wf(self)
    }

    open spec fn spec_id(&self) -> Seq<char> {
        self.config.id@
    }

    open spec fn spec_agent_type(&self) -> Seq<char> {
        "crawler"@
    }

    open spec fn sensed(&self, live: Seq<Signal>, time: i64) -> Seq<Signal> {
        fresh(
            of_kind(
                live,
                time,
                self.config.sensing_threshold,
                PayloadKind::RefinedQuery,
            ),
            names(self.processed_queries@),
        )
    }

    open spec fn began(
        &self,
        live: Seq<Signal>,
        time: i64,
        post: Self,
        after: Seq<Signal>,
        step: Step,
    ) -> bool {
        &&& self.starts(live, time, post, step)
        &&& after == live
    }

    open spec fn proceeded(
        &self,
        live: Seq<Signal>,
        time: i64,
        replies: Seq<Reply>,
        post: Self,
        after: Seq<Signal>,
        step: Step,
    ) -> bool {
        self.resumes(live, replies, post, after, step)
    }

    open spec fn beat(&self, live: Seq<Signal>, after: Seq<Signal>) -> bool {
    pulsed(
            live,
            after,
            self.config.id@,
            AgentType::Crawler,
            if self.processed_queries@.len() < 3 {
                UNIT
            } else {
                500_000
            },
            HEARTBEAT_TTL,
        )
    }

    fn id(&self) -> (r: &str) {
        CrawlerAgent::id(self)
    }

    fn agent_type(&self) -> (r: &str) {
        CrawlerAgent::agent_type(self)
    }

    fn sense<'a>(&self, field: &'a Field) -> (out: Vec<&'a Signal>) {
        let out = CrawlerAgent::sense(self, field);
        proof {
            let first = |s: Signal|
                crate::field::wanted(
                    s,
                    field.time(),
                    self.config.sensing_threshold,
                    Some(PayloadKind::RefinedQuery),
                );
            let sensed = field.live().filter(first);
            let second = |s: Signal|
                !names(self.processed_queries@).contains(crate::agents::traits::subject_of(s));
            crate::field::lemma_filter_members(field.live(), first);
            crate::field::lemma_filter_members(sensed, second);
            assert forall|k: int| 0 <= k < out@.len() implies field.live().contains(
                *#[trigger] out@[k],
            ) by {
                assert(refs(out@)[k] == *out@[k]);
                assert(sensed.contains(sensed.filter(second)[k]));
            }
        }
        out
    }

    fn begin(&mut self, field: &mut Field) -> (step: Step) {
        CrawlerAgent::start(self, field)
    }

    fn proceed(&mut self, field: &mut Field, replies: Vec<Reply>) -> (step: Step) {
        CrawlerAgent::resume(self, field, replies)
    }

    fn heartbeat(&self, field: &mut Field) {
        CrawlerAgent::heartbeat(self, field)
    }
}

} // verus!
