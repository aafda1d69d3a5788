//! The extractor: finds the artifacts in each scraped page.

use vstd::prelude::*;
use crate::agents::analyst::page_of;
use crate::agents::traits::{
    delivered, emit_all, fresh, note, noted, posted, pulse, pulsed, subject_of, subjects, unseen,
    AgentConfig, AgentError, Outgoing, Reply, Step, HEARTBEAT_TTL,
};
use crate::artifacts::{extract_artifacts, extracted, models};
use crate::field::{of_kind, refs, Field};
use crate::signals::{AgentType, OsintPayload, PayloadKind, Signal};
use crate::text::names;
use crate::units::UNIT;

verus! {

/// Confidence of an extraction: 0.85.
pub const EXTRACTOR_CONFIDENCE: u64 = 850_000;

/// Lifetime of an extraction: 180 seconds.
pub const EXTRACTOR_TTL: u64 = 180_000;

/// The extractor.
pub struct ExtractorAgent {
    pub config: AgentConfig,
    /// The addresses of the pages that were read
    pub processed_urls: Vec<String>,
}

/// `item` holds the artifacts of the page `url` with the text `text`.
pub open spec fn is_extraction(item: Outgoing, url: Seq<char>, text: Seq<char>) -> bool {
    &&& item.confidence == EXTRACTOR_CONFIDENCE
    &&& item.ttl == EXTRACTOR_TTL
    &&& item.payload matches OsintPayload::ExtractedArtifacts { source_url, artifacts }
    &&& source_url@ == url
    &&& models(artifacts@) == extracted(text, Some(url))
}

/// `batch` holds, in the order of the pages, the extraction of each page in
/// which there is an artifact.
pub open spec fn extraction_batch(batch: Seq<Outgoing>, pages: Seq<Signal>) -> bool
    decreases pages.len(),
{
    if pages.len() == 0 {
        batch.len() == 0
    } else {
        let (url, text) = page_of(pages.last());
        if extracted(text, Some(url)).len() == 0 {
            extraction_batch(batch, pages.drop_last())
        } else {
            &&& batch.len() > 0
            &&& extraction_batch(batch.drop_last(), pages.drop_last())
            &&& is_extraction(batch.last(), url, text)
        }
    }
}

/// A page to read.
pub struct Page {
    pub url: String,
    pub text: String,
}

impl ExtractorAgent {
    /// An extractor that has read nothing yet.
    pub fn new(config: AgentConfig) -> (a: ExtractorAgent)
        ensures
            a.config == config,
            a.processed_urls@.len() == 0,
    {
        ExtractorAgent { config, processed_urls: Vec::new() }
    }

    /// The worker's name.
    pub fn id(&self) -> (r: &str)
        ensures
            r@ == self.config.id@,
    {
        self.config.id.as_str()
    }

    /// The worker's kind.
    pub fn agent_type(&self) -> (r: &'static str)
        ensures
            r@ == "extractor"@,
    {
        "extractor"
    }

    /// The pages that reach the worker's threshold and are not read yet.
    pub fn sense<'a>(&self, field: &'a Field) -> (out: Vec<&'a Signal>)
        ensures
            refs(out@) == fresh(
                of_kind(
                    field.live(),
                    field.time(),
                    self.config.sensing_threshold,
                    PayloadKind::ScrapedContent,
                ),
                names(self.processed_urls@),
            ),
    {
        unseen(
            field.sense_kind(self.config.sensing_threshold, PayloadKind::ScrapedContent),
            &self.processed_urls,
        )
    }

    /// The extractions of the pages.
    pub fn read(pages: &Vec<&Signal>) -> (batch: Vec<Outgoing>)
        ensures
            extraction_batch(batch@, refs(pages@)),
    {
        let ghost all = refs(pages@);
        let mut batch: Vec<Outgoing> = Vec::new();
        let mut k: usize = 0;
        assert(all.take(0) =~= Seq::<Signal>::empty());
        while k < pages.len()
            invariant
                k <= pages.len(),
                all == refs(pages@),
                extraction_batch(batch@, all.take(k as int)),
            decreases pages.len() - k,
        {
            proof {
                assert(all.take(k + 1).drop_last() =~= all.take(k as int));
                assert(all.take(k + 1).last() == *pages@[k as int]);
            }
            match &pages[k].payload {
                OsintPayload::ScrapedContent { url, text, .. } => {
                    let artifacts = extract_artifacts(text.as_str(), Some(url.as_str()));
                    assert(models(artifacts@).len() == artifacts@.len());
                    if artifacts.len() > 0 {
                        let ghost before = batch@;
                        batch.push(
                            Outgoing {
                                payload: OsintPayload::ExtractedArtifacts {
                                    source_url: url.clone(),
                                    artifacts,
                                },
                                confidence: EXTRACTOR_CONFIDENCE,
                                ttl: EXTRACTOR_TTL,
                            },
                        );
                        assert(batch@.drop_last() =~= before);
                        assert(is_extraction(batch@.last(), url@, text@));
                    }
                    assert(page_of(all.take(k + 1).last()) == (url@, text@));
                },
                _ => {
                    proof {
                        reveal_strlit("");
                        assert(""@ =~= Seq::<char>::empty());
                    }
                    let artifacts = extract_artifacts("", Some(""));
                    assert(models(artifacts@).len() == artifacts@.len());
                    if artifacts.len() > 0 {
                        let ghost before = batch@;
                        batch.push(
                            Outgoing {
                                payload: OsintPayload::ExtractedArtifacts {
                                    source_url: String::new(),
                                    artifacts,
                                },
                                confidence: EXTRACTOR_CONFIDENCE,
                                ttl: EXTRACTOR_TTL,
                            },
                        );
                        assert(batch@.drop_last() =~= before);
                    }
                },
            }
            k += 1;
        }
        assert(all.take(pages@.len() as int) =~= all);
        batch
    }

    /// What an activation comes to: every page that is sensed is read and
    /// noted, and the artifacts of each page that has some are emitted.
    pub open spec fn processes(
        &self,
        live: Seq<Signal>,
        time: i64,
        post: Self,
        after: Seq<Signal>,
        r: Result<Vec<String>, AgentError>,
    ) -> bool {
        &&& post.config == self.config
        &&& ({
            let sensed = fresh(
                of_kind(
                    live,
                    time,
                    self.config.sensing_threshold,
                    PayloadKind::ScrapedContent,
                ),
                names(self.processed_urls@),
            );
            if sensed.len() == 0 {
                &&& r matches Err(AgentError::NoWork)
                &&& after == live
                &&& post.processed_urls == self.processed_urls
            } else {
                &&& r matches Ok(hashes)
                &&& names(post.processed_urls@) == noted(
                    names(self.processed_urls@),
                    subjects(sensed),
                )
                &&& exists|batch: Seq<Outgoing>|
                    #[trigger] extraction_batch(batch, sensed) && delivered(
                        live,
                        self.config.id@,
                        batch,
                        after,
                        names(hashes@),
                    )
            }
        })
    }

    /// One activation: every page that the worker senses is read and noted,
    /// and the artifacts of each page that has some are emitted.
    pub fn process(&mut self, field: &mut Field) -> (r: Result<Vec<String>, AgentError>)
        requires
            old(field).wf(),
        ensures
            final(field).wf(),
            crate::field::grown(old(field).live(), final(field).live()),
            final(field).time() == old(field).time(),
            final(field).past() == old(field).past(),
            old(field).sound() ==> final(field).sound(),
            old(self).processes(old(field).live(), old(field).time(), *final(self), final(field).live(), r),
    {
        let ghost seen = names(self.processed_urls@);
        let sensed = self.sense(field);
        if sensed.len() == 0 {
            return Err(AgentError::NoWork);
        }
        let ghost all = refs(sensed@);
        let batch = ExtractorAgent::read(&sensed);
        let mut k: usize = 0;
        proof {
            assert(subjects(all).take(0) =~= Seq::<Seq<char>>::empty());
        }
        while k < sensed.len()
            invariant
                k <= sensed.len(),
                all == refs(sensed@),
                self.config == old(self).config,
                names(self.processed_urls@) == noted(seen, subjects(all).take(k as int)),
            decreases sensed.len() - k,
        {
            proof {
                let q = subjects(all).take(k + 1);
                assert(q.drop_last() =~= subjects(all).take(k as int));
                assert(q.last() == subject_of(*sensed@[k as int]));
            }
            note(&mut self.processed_urls, crate::agents::traits::subject(sensed[k]));
            k += 1;
        }
        assert(subjects(all).take(sensed@.len() as int) =~= subjects(all));
        let ghost b = batch@;
        let hashes = emit_all(field, self.config.id.as_str(), batch);
        assert(extraction_batch(b, all));
        Ok(hashes)
    }

    /// Emits the worker's heartbeat: it is free.
    pub fn heartbeat(&self, field: &mut Field)
        requires
            old(field).wf(),
        ensures
            final(field).wf(),
            pulsed(
                old(field).live(),
                final(field).live(),
                self.config.id@,
                AgentType::Extractor,
                UNIT,
                HEARTBEAT_TTL,
            ),
            final(field).time() == old(field).time(),
            final(field).past() == old(field).past(),
            old(field).sound() ==> final(field).sound(),
    {
        pulse(field, self.config.id.as_str(), AgentType::Extractor, UNIT, HEARTBEAT_TTL);
    }
}


impl crate::agents::traits::OsintAgent for ExtractorAgent {
    open spec fn ready(&self) -> bool {
        true
    }

    open spec fn spec_id(&self) -> Seq<char> {
        self.config.id@
    }

    open spec fn spec_agent_type(&self) -> Seq<char> {
        "extractor"@
    }

    open spec fn sensed(&self, live: Seq<Signal>, time: i64) -> Seq<Signal> {
        fresh(
            of_kind(
                live,
                time,
                self.config.sensing_threshold,
                PayloadKind::ScrapedContent,
            ),
            names(self.processed_urls@),
        )
    }

    open spec fn began(
        &self,
        live: Seq<Signal>,
        time: i64,
        post: Self,
        after: Seq<Signal>,
        step: Step,
    ) -> bool {
        &&& step matches Step::Done(r)
        &&& self.processes(live, time, post, after, r)
    }

    open spec fn proceeded(
        &self,
        live: Seq<Signal>,
        time: i64,
        replies: Seq<Reply>,
        post: Self,
        after: Seq<Signal>,
        step: Step,
    ) -> bool {
        &&& step matches Step::Done(Err(AgentError::NoWork))
        &&& post == *self
        &&& after == live
    }

    open spec fn beat(&self, live: Seq<Signal>, after: Seq<Signal>) -> bool {
    pulsed(
            live,
            after,
            self.config.id@,
            AgentType::Extractor,
            UNIT,
            HEARTBEAT_TTL,
        )
    }

    fn id(&self) -> (r: &str) {
        ExtractorAgent::id(self)
    }

    fn agent_type(&self) -> (r: &str) {
        ExtractorAgent::agent_type(self)
    }

    fn sense<'a>(&self, field: &'a Field) -> (out: Vec<&'a Signal>) {
        let out = ExtractorAgent::sense(self, field);
        proof {
            let first = |s: Signal|
                crate::field::wanted(
                    s,
                    field.time(),
                    self.config.sensing_threshold,
                    Some(PayloadKind::ScrapedContent),
                );
            let sensed = field.live().filter(first);
            let second = |s: Signal|
                !names(self.processed_urls@).contains(crate::agents::traits::subject_of(s));
            crate::field::lemma_filter_members(field.live(), first);
            crate::field::lemma_filter_members(sensed, second);
            assert forall|k: int| 0 <= k < out@.len() implies field.live().contains(
                *#[trigger] out@[k],
            ) by {
                assert(refs(out@)[k] == *out@[k]);
                assert(sensed.contains(sensed.filter(second)[k]));
            }
        }
        out
    }

    fn begin(&mut self, field: &mut Field) -> (step: Step) {
        Step::Done(ExtractorAgent::process(self, field))
    }

    fn proceed(&mut self, field: &mut Field, replies: Vec<Reply>) -> (step: Step) {
        Step::Done(Err(AgentError::NoWork))
    }

    fn heartbeat(&self, field: &mut Field) {
        ExtractorAgent::heartbeat(self, field)
    }
}

/// An extractor that senses one page in which there is an artifact emits
/// one signal with the artifacts of the page's text under the page's
/// address, with confidence 0.85 and a lifetime of 180 seconds, returns its
/// key, and notes the address, so that it does not read the page again.
pub proof fn lemma_extracts_one_page(
    extractor: ExtractorAgent,
    live: Seq<Signal>,
    time: i64,
    post: ExtractorAgent,
    after: Seq<Signal>,
    r: Result<Vec<String>, AgentError>,
)
    requires
        fresh(
            of_kind(live, time, extractor.config.sensing_threshold, PayloadKind::ScrapedContent),
            names(extractor.processed_urls@),
        ).len() == 1,
        ({
            let page = fresh(
                of_kind(
                    live,
                    time,
                    extractor.config.sensing_threshold,
                    PayloadKind::ScrapedContent,
                ),
                names(extractor.processed_urls@),
            )[0];
            extracted(page_of(page).1, Some(page_of(page).0)).len() > 0
        }),
        extractor.processes(live, time, post, after, r),
    ensures
        ({
            let page = fresh(
                of_kind(
                    live,
                    time,
                    extractor.config.sensing_threshold,
                    PayloadKind::ScrapedContent,
                ),
                names(extractor.processed_urls@),
            )[0];
            &&& r matches Ok(hashes)
            &&& hashes@.len() == 1
            &&& exists|s: Signal|
                {
                    &&& #[trigger] crate::field::emit_step(live, s, after)
                    &&& hashes@[0]@ == s.origin_hash@
                    &&& s.addressed()
                    &&& s.origin_agent_id@ == extractor.config.id@
                    &&& s.confidence == EXTRACTOR_CONFIDENCE
                    &&& s.ttl == EXTRACTOR_TTL
                    &&& s.payload matches OsintPayload::ExtractedArtifacts { source_url, artifacts }
                    &&& source_url@ == page_of(page).0
                    &&& models(artifacts@) == extracted(page_of(page).1, Some(page_of(page).0))
                }
            &&& names(post.processed_urls@).contains(subject_of(page))
        }),
{
    let sensed = fresh(
        of_kind(live, time, extractor.config.sensing_threshold, PayloadKind::ScrapedContent),
        names(extractor.processed_urls@),
    );
    let page = sensed[0];
    let hashes = r->Ok_0;
    let batch = choose|batch: Seq<Outgoing>|
        #[trigger] extraction_batch(batch, sensed) && delivered(
            live,
            extractor.config.id@,
            batch,
            after,
            names(hashes@),
        );
    assert(sensed.last() == page);
    assert(sensed.drop_last().len() == 0);
    assert(extraction_batch(batch.drop_last(), sensed.drop_last()));
    assert(batch.drop_last().len() == 0);
    assert(batch.len() == 1);
    let keys = names(hashes@);
    let (mid, s) = choose|mid: Seq<Signal>, s: Signal|
        {
            &&& delivered(live, extractor.config.id@, batch.drop_last(), mid, keys.drop_last())
            &&& posted(s, extractor.config.id@, batch.last())
            &&& #[trigger] crate::field::emit_step(mid, s, after)
            &&& keys.last() == s.origin_hash@
        };
    assert(mid == live);
    assert(keys.len() == 1);
    assert(keys.last() == keys[0]);
    assert(keys[0] == hashes@[0]@);
    assert(is_extraction(batch.last(), page_of(page).0, page_of(page).1));
    assert(s.payload == batch.last().payload);
    assert(crate::units::spec_clamp_unit(EXTRACTOR_CONFIDENCE as nat) == EXTRACTOR_CONFIDENCE);
    let qs = subjects(sensed);
    assert(qs.drop_last() =~= Seq::<Seq<char>>::empty());
    assert(qs.last() == subject_of(page));
    let seen = names(extractor.processed_urls@);
    assert(noted(seen, qs.drop_last()) == seen);
    if !seen.contains(subject_of(page)) {
        assert(seen.push(subject_of(page))[seen.len() as int] == subject_of(page));
    }
}

} // verus!
