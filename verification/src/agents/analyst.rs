//! The analyst: once enough pages are in, it writes the report, alone or
//! with the help of specialists.

use vstd::prelude::*;
use crate::agents::persona::{first_lead, persons, PersonaRegistry, LEAD_PROMPT};
use crate::agents::specialists::{
    collect_reports, context_for_specialists, context_for_synthesis, gathered, report_model,
    specialist_context, synthesis_context, SpecialistReport,
};
use crate::agents::traits::{
    asks, emit_one, failure, failure_at, posted, pulse, pulsed, AgentConfig, AgentError, LlmError,
    Outgoing, Reply, Request, Step, HEARTBEAT_TTL,
};
use crate::artifacts::Artifact;
use crate::field::{emit_step, of_kind, refs, Field};
use crate::signals::{AgentType, OsintPayload, PayloadKind, Signal};
use crate::text::{
    chars_of, decimal, digit_char, join, joined, prefix, push_chars, push_decimal, push_str,
    text_of, texts,
};
use crate::units::UNIT;

verus! {

/// Pages that have to be in before the analyst writes.
pub const ANALYST_MIN_SOURCES: usize = 3;

/// Most pages that the model is shown.
pub const ANALYST_MAX_PAGES: usize = 10;

/// Most characters of a page that the model is shown.
pub const ANALYST_PAGE_LIMIT: usize = 1500;

/// Most artifacts that the model is shown.
pub const ANALYST_MAX_ARTIFACTS: usize = 50;

/// Confidence of a summary: 0.95.
pub const SUMMARY_CONFIDENCE: u64 = 950_000;

/// Lifetime of a summary: 300 seconds.
pub const SUMMARY_TTL: u64 = 300_000;

/// What the analyst waits for.
#[derive(Debug)]
pub enum AnalystStage {
    /// Nothing
    Idle,
    /// The specialists' reports
    Reports {
        query: String,
        content: String,
        artifacts: String,
        artifact_count: usize,
        source_count: usize,
    },
    /// The report itself
    Summary { artifact_count: usize, source_count: usize },
}

/// The analyst.
pub struct AnalystAgent {
    pub config: AgentConfig,
    /// The personas of the specialists and their lead, where the analyst
    /// works with specialists
    pub registry: Option<PersonaRegistry>,
    pub summary_generated: bool,
    pub stage: AnalystStage,
}

/// The original query of a refined-query signal.
pub open spec fn original_of(s: Signal) -> Seq<char> {
    match s.payload {
        OsintPayload::RefinedQuery { original, .. } => original@,
        _ => "Unknown query"@,
    }
}

/// The query that the investigation is about: that of the first live
/// refined query.
pub open spec fn query_of(queries: Seq<Signal>) -> Seq<char> {
    if queries.len() > 0 {
        original_of(queries[0])
    } else {
        "Unknown query"@
    }
}

/// Address and text of a scraped page.
pub open spec fn page_of(s: Signal) -> (Seq<char>, Seq<char>) {
    match s.payload {
        OsintPayload::ScrapedContent { url, text, .. } => (url@, text@),
        _ => (Seq::empty(), Seq::empty()),
    }
}

/// The artifacts of an extraction signal.
pub open spec fn artifacts_of(s: Signal) -> Seq<Artifact> {
    match s.payload {
        OsintPayload::ExtractedArtifacts { artifacts, .. } => artifacts@,
        _ => Seq::empty(),
    }
}

/// The artifacts of all signals, in order.
pub open spec fn flattened(sigs: Seq<Signal>) -> Seq<Artifact>
    decreases sigs.len(),
{
    if sigs.len() == 0 {
        Seq::empty()
    } else {
        flattened(sigs.drop_last()) + artifacts_of(sigs.last())
    }
}

/// A page as the model is shown it: at most 1500 characters, with an
/// ellipsis where it was cut.
pub open spec fn page_section(url: Seq<char>, text: Seq<char>) -> Seq<char> {
    "### "@ + url + "\n"@ + (if text.len() > ANALYST_PAGE_LIMIT {
        text.take(ANALYST_PAGE_LIMIT as int) + "..."@
    } else {
        text
    }) + "\n"@
}

/// The first ten pages, an empty line between each two.
pub open spec fn content_text(pages: Seq<Signal>) -> Seq<char> {
    join(
        Seq::new(
            if pages.len() <= ANALYST_MAX_PAGES {
                pages.len()
            } else {
                ANALYST_MAX_PAGES as nat
            },
            |k: int| page_section(page_of(pages[k]).0, page_of(pages[k]).1),
        ),
        "\n"@,
    )
}

/// A confidence with two decimal places, rounded.
pub open spec fn two_places(confidence: nat) -> Seq<char> {
    let h = (confidence + 5000) / 10000;
    decimal(h / 100) + seq!['.', digit_char(h / 10 % 10), digit_char(h % 10)]
}

/// An artifact as the model is shown it.
pub open spec fn artifact_line(a: Artifact) -> Seq<char> {
    "- "@ + a.artifact_type.label() + ": "@ + a.value@ + " (confidence: "@ + two_places(
        a.confidence as nat,
    ) + ")"@
}

/// The first fifty artifacts, one to a line.
pub open spec fn artifacts_text(list: Seq<Artifact>) -> Seq<char> {
    join(
        Seq::new(
            if list.len() <= ANALYST_MAX_ARTIFACTS {
                list.len()
            } else {
                ANALYST_MAX_ARTIFACTS as nat
            },
            |k: int| artifact_line(list[k]),
        ),
        "\n"@,
    )
}

/// What the model is shown where the analyst works alone.
pub open spec fn single_input(query: Seq<char>, content: Seq<char>, artifacts: Seq<char>) -> Seq<
    char,
> {
    "# Investigation Context\n\n## Original Query\n"@ + query + "\n\n## Scraped Content\n"@
        + content + "\n\n## Extracted Artifacts\n"@ + artifacts
}

/// Why the analyst is not ready with `n` pages.
pub open spec fn waiting_text(n: nat) -> Seq<char> {
    "Only "@ + decimal(n) + " content signals, waiting for more"@
}

/// The completions among the first `n` replies; a reply that is missing or
/// is no completion counts as none.
pub open spec fn outcomes_of(replies: Seq<Reply>, n: nat) -> Seq<Option<Seq<char>>> {
    Seq::new(
        n,
        |k: int|
            if k < replies.len() {
                match replies[k] {
                    Reply::Completion(text) => Some(text@),
                    _ => None,
                }
            } else {
                None
            },
    )
}

/// The references of a list of artifacts.
pub open spec fn derefs(v: Seq<&Artifact>) -> Seq<Artifact> {
    v.map_values(|a: &Artifact| *a)
}

/// The text that shows the pages to the model.
pub fn render_pages(pages: &Vec<&Signal>) -> (r: String)
    ensures
        r@ == content_text(refs(pages@)),
{
    let n = if pages.len() <= ANALYST_MAX_PAGES { pages.len() } else { ANALYST_MAX_PAGES };
    let ghost ps = refs(pages@);
    let mut sections: Vec<Vec<char>> = Vec::new();
    let mut k: usize = 0;
    while k < n
        invariant
            k <= n,
            n <= pages@.len(),
            ps == refs(pages@),
            sections@.len() == k,
            forall|j: int|
                0 <= j < k ==> (#[trigger] sections@[j])@ == page_section(
                    page_of(ps[j]).0,
                    page_of(ps[j]).1,
                ),
        decreases n - k,
    {
        assert(ps[k as int] == *pages@[k as int]);
        let mut s = chars_of("### ");
        match &pages[k].payload {
            OsintPayload::ScrapedContent { url, text, .. } => {
                push_str(&mut s, url.as_str());
                push_str(&mut s, "\n");
                let t = chars_of(text.as_str());
                if t.len() > ANALYST_PAGE_LIMIT {
                    push_chars(&mut s, &prefix(&t, ANALYST_PAGE_LIMIT));
                    push_str(&mut s, "...");
                } else {
                    push_chars(&mut s, &t);
                }
            },
            _ => {
                push_str(&mut s, "\n");
            },
        }
        push_str(&mut s, "\n");
        assert(s@ =~= page_section(page_of(ps[k as int]).0, page_of(ps[k as int]).1));
        sections.push(s);
        k += 1;
    }
    assert(texts(sections@) =~= Seq::new(
        n as nat,
        |k: int| page_section(page_of(ps[k]).0, page_of(ps[k]).1),
    ));
    let sep = chars_of("\n");
    text_of(&joined(&sections, &sep))
}

/// Appends a confidence with two decimal places.
fn push_two_places(dst: &mut Vec<char>, confidence: u64)
    ensures
        final(dst)@ == old(dst)@ + two_places(confidence as nat),
{
    let h: u64 = ((confidence as u128 + 5000) / 10000) as u64;
    push_decimal(dst, h / 100);
    dst.push('.');
    let mut two: Vec<char> = Vec::new();
    push_decimal(&mut two, h / 10 % 10);
    push_decimal(&mut two, h % 10);
    assert(two@ =~= seq![digit_char((h / 10 % 10) as nat), digit_char((h % 10) as nat)]);
    push_chars(dst, &two);
    assert(dst@ =~= old(dst)@ + two_places(confidence as nat));
}

/// The text that shows the artifacts to the model.
pub fn render_artifacts(list: &Vec<&Artifact>) -> (r: String)
    ensures
        r@ == artifacts_text(derefs(list@)),
{
    let n = if list.len() <= ANALYST_MAX_ARTIFACTS { list.len() } else { ANALYST_MAX_ARTIFACTS };
    let ghost items = derefs(list@);
    let mut lines: Vec<Vec<char>> = Vec::new();
    let mut k: usize = 0;
    while k < n
        invariant
            k <= n,
            n <= list@.len(),
            items == derefs(list@),
            lines@.len() == k,
            forall|j: int| 0 <= j < k ==> (#[trigger] lines@[j])@ == artifact_line(items[j]),
        decreases n - k,
    {
        assert(items[k as int] == *list@[k as int]);
        let a = list[k];
        let mut s = chars_of("- ");
        push_chars(&mut s, &a.artifact_type.label_text());
        push_str(&mut s, ": ");
        push_str(&mut s, a.value.as_str());
        push_str(&mut s, " (confidence: ");
        push_two_places(&mut s, a.confidence);
        push_str(&mut s, ")");
        assert(s@ =~= artifact_line(items[k as int]));
        lines.push(s);
        k += 1;
    }
    assert(texts(lines@) =~= Seq::new(n as nat, |k: int| artifact_line(items[k])));
    let sep = chars_of("\n");
    text_of(&joined(&lines, &sep))
}

/// References to the artifacts of all the signals, in order.
pub fn flatten<'a>(sigs: &Vec<&'a Signal>) -> (out: Vec<&'a Artifact>)
    ensures
        derefs(out@) == flattened(refs(sigs@)),
{
    let ghost ss = refs(sigs@);
    let mut out: Vec<&'a Artifact> = Vec::new();
    let mut i: usize = 0;
    proof {
        assert(ss.take(0) =~= Seq::<Signal>::empty());
        assert(derefs(out@) =~= flattened(ss.take(0)));
    }
    while i < sigs.len()
        invariant
            i <= sigs.len(),
            ss == refs(sigs@),
            derefs(out@) == flattened(ss.take(i as int)),
        decreases sigs.len() - i,
    {
        proof {
            assert(ss.take(i + 1).drop_last() =~= ss.take(i as int));
            assert(ss.take(i + 1).last() == *sigs@[i as int]);
        }
        let ghost base = derefs(out@);
        match &sigs[i].payload {
            OsintPayload::ExtractedArtifacts { artifacts, .. } => {
                let mut j: usize = 0;
                while j < artifacts.len()
                    invariant
                        j <= artifacts.len(),
                        derefs(out@) == base + artifacts@.take(j as int),
                    decreases artifacts.len() - j,
                {
                    let ghost before = derefs(out@);
                    out.push(&artifacts[j]);
                    assert(derefs(out@) =~= before.push(artifacts@[j as int]));
                    assert(artifacts@.take(j + 1) =~= artifacts@.take(j as int).push(
                        artifacts@[j as int],
                    ));
                    j += 1;
                }
                assert(artifacts@.take(artifacts@.len() as int) =~= artifacts@);
            },
            _ => {
                assert(derefs(out@) =~= base + Seq::<Artifact>::empty());
            },
        }
        i += 1;
    }
    assert(ss.take(sigs@.len() as int) =~= ss);
    out
}

/// `s` is the summary signal of the worker `origin` for the report
/// `markdown`.
pub open spec fn is_summary(
    s: Signal,
    origin: Seq<char>,
    markdown: Seq<char>,
    artifact_count: usize,
    source_count: usize,
) -> bool {
    &&& s.origin_agent_id@ == origin
    &&& s.confidence == SUMMARY_CONFIDENCE
    &&& s.ttl == SUMMARY_TTL
    &&& s.intensity == UNIT
    &&& s.reinforcement_count == 0
    &&& s.addressed()
    &&& s.payload matches OsintPayload::Summary { markdown: m, artifact_count: a, source_count: c }
    &&& m@ == markdown
    &&& a == artifact_count
    &&& c == source_count
}

/// `r` asks the lead analyst, the persona at `i`, for the report on the
/// material and on `reports`, which are the reports of the specialists
/// whose completion is among `replies`.
pub open spec fn lead_request(
    r: Request,
    registry: PersonaRegistry,
    i: int,
    reports: Seq<SpecialistReport>,
    replies: Seq<Reply>,
    query: Seq<char>,
    content: Seq<char>,
    artifacts: Seq<char>,
) -> bool {
    &&& first_lead(registry.all(), i)
    &&& reports.map_values(|r: SpecialistReport| report_model(r)) == gathered(
        registry.specialists(),
        outcomes_of(replies, registry.specialists().len()),
    )
    &&& asks(
        r,
        registry.all()[i].prompt.system@,
        synthesis_context(query, content, artifacts, reports),
    )
}

/// What follows the specialists' replies: without a lead analyst the
/// activation fails and the analyst is idle again; else the lead analyst is
/// asked and the analyst waits for the report.
pub open spec fn after_reports(
    registry: Option<PersonaRegistry>,
    replies: Seq<Reply>,
    query: Seq<char>,
    content: Seq<char>,
    artifacts: Seq<char>,
    artifact_count: usize,
    source_count: usize,
    step: Step,
    stage: AnalystStage,
) -> bool {
    match registry {
        Some(registry) => if registry.leaderless() {
            &&& step matches Step::Done(Err(AgentError::Llm(m))) && m@ == "API error: "@
                + "No lead analyst persona found"@
            &&& stage is Idle
        } else {
            &&& step matches Step::Ask(requests)
            &&& requests@.len() == 1
            &&& exists|i: int, reports: Seq<SpecialistReport>| #[trigger]
                lead_request(requests@[0], registry, i, reports, replies, query, content, artifacts)
            &&& stage == (AnalystStage::Summary { artifact_count, source_count })
        },
        None => {
            &&& step matches Step::Done(Err(AgentError::Llm(m))) && m@
                == "no specialists to report"@
            &&& stage is Idle
        },
    }
}

/// What follows the lead analyst's reply: a completion is emitted as the
/// summary and the analyst is done for good; anything else fails the
/// activation and changes nothing.
pub open spec fn after_summary(
    origin: Seq<char>,
    was_done: bool,
    before: Seq<Signal>,
    replies: Seq<Reply>,
    artifact_count: usize,
    source_count: usize,
    step: Step,
    done: bool,
    after: Seq<Signal>,
) -> bool {
    if replies.len() >= 1 && replies[0] is Completion {
        &&& done
        &&& step matches Step::Done(Ok(hashes))
        &&& hashes@.len() == 1
        &&& exists|s: Signal|
            {
                &&& #[trigger] emit_step(before, s, after)
                &&& is_summary(s, origin, replies[0]->Completion_0@, artifact_count, source_count)
                &&& hashes@[0]@ == s.origin_hash@
            }
    } else {
        &&& done == was_done
        &&& step matches Step::Done(Err(AgentError::Llm(m))) && m@ == failure_at(replies, 0)
        &&& after == before
    }
}

impl AnalystAgent {
    /// An analyst that writes the report alone.
    pub fn new(config: AgentConfig) -> (a: AnalystAgent)
        ensures
            a.config == config,
            a.registry is None,
            !a.summary_generated,
            a.stage is Idle,
    {
        AnalystAgent { config, registry: None, summary_generated: false, stage: AnalystStage::Idle }
    }

    /// An analyst that works with the built-in specialists.
    pub fn new_with_specialists(config: AgentConfig) -> (a: AnalystAgent)
        ensures
            a.config == config,
            a.registry matches Some(r) && crate::agents::persona::ids(r.all())
                == crate::agents::persona::builtin_ids(),
            !a.summary_generated,
            a.stage is Idle,
    {
        AnalystAgent {
            config,
            registry: Some(PersonaRegistry::load_embedded()),
            summary_generated: false,
            stage: AnalystStage::Idle,
        }
    }

    /// Whether the analyst works with specialists.
    pub fn has_specialists(&self) -> (r: bool)
        ensures
            r == self.registry is Some,
    {
        self.registry.is_some()
    }

    /// The names of the specialists; none where the analyst works alone.
    pub fn list_specialists(&self) -> (out: Vec<&str>)
        ensures
            match self.registry {
                Some(r) => {
                    &&& out@.len() == r.specialists().len()
                    &&& forall|i: int|
                        0 <= i < out@.len() ==> (#[trigger] out@[i])@ == r.specialists()[i].persona.name@
                },
                None => out@.len() == 0,
            },
    {
        let mut out: Vec<&str> = Vec::new();
        match &self.registry {
            Some(r) => {
                let specialists = r.specialist_analysts();
                let mut k: usize = 0;
                while k < specialists.len()
                    invariant
                        k <= specialists.len(),
                        out@.len() == k,
                        forall|i: int|
                            0 <= i < k ==> (#[trigger] out@[i])@ == persons(
                                specialists@,
                            )[i].persona.name@,
                    decreases specialists.len() - k,
                {
                    assert(persons(specialists@)[k as int] == *specialists@[k as int]);
                    out.push(specialists[k].persona.name.as_str());
                    k += 1;
                }
            },
            None => {},
        }
        out
    }

    /// The worker's name.
    pub fn id(&self) -> (r: &str)
        ensures
            r@ == self.config.id@,
    {
        self.config.id.as_str()
    }

    /// The worker's kind.
    pub fn agent_type(&self) -> (r: &'static str)
        ensures
            r@ == "analyst"@,
    {
        "analyst"
    }

    /// The pages and extractions whose effective intensity reaches the
    /// worker's threshold; none once the report is written.
    pub fn sense<'a>(&self, field: &'a Field) -> (out: Vec<&'a Signal>)
        ensures
            self.summary_generated ==> out@.len() == 0,
            !self.summary_generated ==> refs(out@) == field.live().filter(
                |s: Signal|
                    s.effective_at(field.time()) >= self.config.sensing_threshold && (
                    s.payload.spec_kind() == PayloadKind::ScrapedContent || s.payload.spec_kind()
                        == PayloadKind::ExtractedArtifacts),
            ),
    {
        if self.summary_generated {
            return Vec::new();
        }
        field.sense_either(
            self.config.sensing_threshold,
            PayloadKind::ScrapedContent,
            PayloadKind::ExtractedArtifacts,
        )
    }

    /// What the beginning of an activation comes to: once the report is
    /// written there is nothing to do; with fewer than three live pages the
    /// analyst is not ready; else the model is asked.
    pub open spec fn starts(&self, live: Seq<Signal>, time: i64, post: Self, step: Step) -> bool {
        &&& post.config == self.config
        &&& post.registry == self.registry
        &&& post.summary_generated == self.summary_generated
        &&& ({
            let queries = of_kind(live, time, 0, PayloadKind::RefinedQuery);
            let pages = of_kind(live, time, 0, PayloadKind::ScrapedContent);
            let found = flattened(
                of_kind(live, time, 0, PayloadKind::ExtractedArtifacts),
            );
            let query = query_of(queries);
            let content = content_text(pages);
            let artifacts = artifacts_text(found);
            if self.summary_generated {
                &&& step matches Step::Done(Err(AgentError::NoWork))
                &&& post.stage == self.stage
            } else if pages.len() < ANALYST_MIN_SOURCES {
                &&& step matches Step::Done(Err(AgentError::NotReady(why)))
                &&& why@ == waiting_text(pages.len())
                &&& post.stage == self.stage
            } else {
                match self.registry {
                    None => {
                        &&& step matches Step::Ask(requests)
                        &&& requests@.len() == 1
                        &&& asks(
                            requests@[0],
                            LEAD_PROMPT@,
                            single_input(query, content, artifacts),
                        )
                        &&& post.stage matches AnalystStage::Summary {
                            artifact_count,
                            source_count,
                        }
                        &&& artifact_count == found.len()
                        &&& source_count == pages.len()
                    },
                    Some(registry) => {
                        &&& step matches Step::Ask(requests)
                        &&& requests@.len() == registry.specialists().len()
                        &&& forall|k: int|
                            0 <= k < requests@.len() ==> asks(
                                #[trigger] requests@[k],
                                registry.specialists()[k].prompt.system@,
                                specialist_context(query, content, artifacts),
                            )
                        &&& post.stage matches AnalystStage::Reports {
                            query: q,
                            content: c,
                            artifacts: a,
                            artifact_count,
                            source_count,
                        }
                        &&& q@ == query
                        &&& c@ == content
                        &&& a@ == artifacts
                        &&& artifact_count == found.len()
                        &&& source_count == pages.len()
                    },
                }
            }
        })
    }

    /// Begins an activation. Once the report is written there is nothing to
    /// do. With fewer than three live pages the analyst is not ready. Else
    /// the model is asked: for the report where the analyst works alone,
    /// for the specialists' reports where it does not.
    pub fn start(&mut self, field: &Field) -> (step: Step)
        ensures
            old(self).starts(field.live(), field.time(), *final(self), step),
    {
        if self.summary_generated {
            return Step::Done(Err(AgentError::NoWork));
        }
        let queries = field.sense_kind(0, PayloadKind::RefinedQuery);
        let query: String = if queries.len() > 0 {
            assert(refs(queries@)[0] == *queries@[0]);
            match &queries[0].payload {
                OsintPayload::RefinedQuery { original, .. } => original.clone(),
                _ => "Unknown query".to_owned(),
            }
        } else {
            "Unknown query".to_owned()
        };
        let pages = field.sense_kind(0, PayloadKind::ScrapedContent);
        if pages.len() < ANALYST_MIN_SOURCES {
            let mut why = chars_of("Only ");
            push_decimal(&mut why, pages.len() as u64);
            push_str(&mut why, " content signals, waiting for more");
            return Step::Done(Err(AgentError::NotReady(text_of(&why))));
        }
        let extractions = field.sense_kind(0, PayloadKind::ExtractedArtifacts);
        let found = flatten(&extractions);
        let content = render_pages(&pages);
        let artifacts = render_artifacts(&found);
        let artifact_count = found.len();
        let source_count = pages.len();
        let mut requests: Vec<Request> = Vec::new();
        match &self.registry {
            None => {
                let mut input = chars_of("# Investigation Context\n\n## Original Query\n");
                push_str(&mut input, query.as_str());
                push_str(&mut input, "\n\n## Scraped Content\n");
                push_str(&mut input, content.as_str());
                push_str(&mut input, "\n\n## Extracted Artifacts\n");
                push_str(&mut input, artifacts.as_str());
                requests.push(
                    Request::Completion { system: LEAD_PROMPT.to_owned(), user: text_of(&input) },
                );
                self.stage = AnalystStage::Summary { artifact_count, source_count };
            },
            Some(registry) => {
                let specialists = registry.specialist_analysts();
                let context = context_for_specialists(
                    query.as_str(),
                    content.as_str(),
                    artifacts.as_str(),
                );
                let mut k: usize = 0;
                while k < specialists.len()
                    invariant
                        k <= specialists.len(),
                        requests@.len() == k,
                        persons(specialists@) == registry.specialists(),
                        forall|j: int|
                            0 <= j < k ==> asks(
                                #[trigger] requests@[j],
                                registry.specialists()[j].prompt.system@,
                                context@,
                            ),
                    decreases specialists.len() - k,
                {
                    assert(persons(specialists@)[k as int] == *specialists@[k as int]);
                    requests.push(
                        Request::Completion {
                            system: specialists[k].system_prompt().to_owned(),
                            user: context.clone(),
                        },
                    );
                    k += 1;
                }
                self.stage = AnalystStage::Reports {
                    query,
                    content,
                    artifacts,
                    artifact_count,
                    source_count,
                };
            },
        }
        Step::Ask(requests)
    }

    /// Takes the specialists' replies and asks the lead analyst.
    fn reports_in(
        &mut self,
        replies: &Vec<Reply>,
        query: String,
        content: String,
        artifacts: String,
        artifact_count: usize,
        source_count: usize,
    ) -> (step: Step)
        ensures
            final(self).config == old(self).config,
            final(self).registry == old(self).registry,
            final(self).summary_generated == old(self).summary_generated,
            after_reports(
                old(self).registry,
                replies@,
                query@,
                content@,
                artifacts@,
                artifact_count,
                source_count,
                step,
                final(self).stage,
            ),
    {
        self.stage = AnalystStage::Idle;
        let registry = match &self.registry {
            Some(r) => r,
            None => {
                return Step::Done(Err(AgentError::Llm("no specialists to report".to_owned())));
            },
        };
        let lead = match registry.lead_analyst() {
            Some(p) => p,
            None => {
                let e = LlmError::Api("No lead analyst persona found".to_owned());
                return Step::Done(Err(AgentError::Llm(e.message())));
            },
        };
        let ghost li = choose|i: int|
            #[trigger] first_lead(registry.all(), i) && registry.all()[i] == *lead;
        let specialists = registry.specialist_analysts();
        let mut outcomes: Vec<Option<String>> = Vec::new();
        let mut k: usize = 0;
        let ghost want = outcomes_of(replies@, specialists@.len() as nat);
        while k < specialists.len()
            invariant
                k <= specialists.len(),
                outcomes@.len() == k,
                want == outcomes_of(replies@, specialists@.len() as nat),
                forall|j: int|
                    0 <= j < k ==> crate::artifacts::opt_text(#[trigger] outcomes@[j]) == want[j],
            decreases specialists.len() - k,
        {
            let o: Option<String> = if k < replies.len() {
                match &replies[k] {
                    Reply::Completion(text) => Some(text.clone()),
                    _ => None,
                }
            } else {
                None
            };
            outcomes.push(o);
            k += 1;
        }
        assert(crate::agents::specialists::opt_texts(outcomes@) =~= want);
        let reports = collect_reports(&specialists, &outcomes);
        let context = context_for_synthesis(
            query.as_str(),
            content.as_str(),
            artifacts.as_str(),
            &reports,
        );
        let mut requests: Vec<Request> = Vec::new();
        requests.push(
            Request::Completion { system: lead.system_prompt().to_owned(), user: context },
        );
        self.stage = AnalystStage::Summary { artifact_count, source_count };
        proof {
            assert(first_lead(registry.all(), li));
            assert(!registry.leaderless());
            assert(lead_request(
                requests@[0],
                *registry,
                li,
                reports@,
                replies@,
                query@,
                content@,
                artifacts@,
            ));
            assert(old(self).registry == Some(*registry));
        }
        let step = Step::Ask(requests);
        assert(after_reports(
            old(self).registry,
            replies@,
            query@,
            content@,
            artifacts@,
            artifact_count,
            source_count,
            step,
            self.stage,
        ));
        step
    }

    /// Takes the lead analyst's reply and emits the summary.
    fn summary_in(
        &mut self,
        field: &mut Field,
        replies: &Vec<Reply>,
        artifact_count: usize,
        source_count: usize,
    ) -> (step: Step)
        requires
            old(field).wf(),
        ensures
            final(field).wf(),
            crate::field::grown(old(field).live(), final(field).live()),
            final(self).config == old(self).config,
            final(self).registry == old(self).registry,
            final(self).stage is Idle,
            final(field).time() == old(field).time(),
            final(field).past() == old(field).past(),
            old(field).sound() ==> final(field).sound(),
            after_summary(
                old(self).config.id@,
                old(self).summary_generated,
                old(field).live(),
                replies@,
                artifact_count,
                source_count,
                step,
                final(self).summary_generated,
                final(field).live(),
            ),
    {
        self.stage = AnalystStage::Idle;
        if replies.len() == 0 {
            return Step::Done(Err(failure(&replies, 0)));
        }
        match &replies[0] {
            Reply::Completion(text) => {
                self.summary_generated = true;
                let item = Outgoing {
                    payload: OsintPayload::Summary {
                        markdown: text.clone(),
                        artifact_count,
                        source_count,
                    },
                    confidence: SUMMARY_CONFIDENCE,
                    ttl: SUMMARY_TTL,
                };
                let ghost before = field.live();
                let hash = emit_one(field, self.config.id.as_str(), item);
                proof {
                    let s = choose|s: Signal|
                        posted(s, self.config.id@, item) && #[trigger] emit_step(
                            before,
                            s,
                            field.live(),
                        ) && hash@ == s.origin_hash@;
                    assert(is_summary(s, self.config.id@, text@, artifact_count, source_count));
                }
                let mut hashes: Vec<String> = Vec::new();
                hashes.push(hash);
                Step::Done(Ok(hashes))
            },
            _ => Step::Done(Err(failure(&replies, 0))),
        }
    }

    /// What going on with the replies comes to: with the specialists'
    /// reports in, the lead analyst is asked; with the report in, the summary
    /// is emitted.
    pub open spec fn resumes(
        &self,
        live: Seq<Signal>,
        replies: Seq<Reply>,
        post: Self,
        after: Seq<Signal>,
        step: Step,
    ) -> bool {
        &&& post.config == self.config
        &&& post.registry == self.registry
        &&& match self.stage {
            AnalystStage::Idle => {
                &&& step matches Step::Done(Err(AgentError::NoWork))
                &&& post.stage is Idle
                &&& post.summary_generated == self.summary_generated
                &&& after == live
            },
            AnalystStage::Reports { query, content, artifacts, artifact_count, source_count } => {
                &&& post.summary_generated == self.summary_generated
                &&& after == live
                &&& after_reports(
                    self.registry,
                    replies,
                    query@,
                    content@,
                    artifacts@,
                    artifact_count,
                    source_count,
                    step,
                    post.stage,
                )
            },
            AnalystStage::Summary { artifact_count, source_count } => {
                &&& post.stage is Idle
                &&& after_summary(
                    self.config.id@,
                    self.summary_generated,
                    live,
                    replies,
                    artifact_count,
                    source_count,
                    step,
                    post.summary_generated,
                    after,
                )
            },
        }
    }

    /// Goes on with the model's replies. With the specialists' reports in,
    /// the lead analyst is asked for the report; without a lead analyst the
    /// activation fails. With the report in, the summary is emitted and the
    /// analyst is done for good; a failure of the model is passed on.
    pub fn resume(&mut self, field: &mut Field, replies: Vec<Reply>) -> (step: Step)
        requires
            old(field).wf(),
        ensures
            final(field).wf(),
            crate::field::grown(old(field).live(), final(field).live()),
            final(field).time() == old(field).time(),
            final(field).past() == old(field).past(),
            old(field).sound() ==> final(field).sound(),
            old(self).resumes(old(field).live(), replies@, *final(self), final(field).live(), step),
    {
        let mut stage = AnalystStage::Idle;
        core::mem::swap(&mut self.stage, &mut stage);
        match stage {
            AnalystStage::Idle => Step::Done(Err(AgentError::NoWork)),
            AnalystStage::Reports { query, content, artifacts, artifact_count, source_count } => {
                self.reports_in(&replies, query, content, artifacts, artifact_count, source_count)
            },
            AnalystStage::Summary { artifact_count, source_count } => {
                self.summary_in(field, &replies, artifact_count, source_count)
            },
        }
    }

    /// Emits the worker's heartbeat: free until the report is written, and
    /// without capacity after.
    pub fn heartbeat(&self, field: &mut Field)
        requires
            old(field).wf(),
        ensures
            final(field).wf(),
            pulsed(
                old(field).live(),
                final(field).live(),
                self.config.id@,
                AgentType::Analyst,
                if self.summary_generated {
                    0
                } else {
                    UNIT
                },
                HEARTBEAT_TTL,
            ),
            final(field).time() == old(field).time(),
            final(field).past() == old(field).past(),
            old(field).sound() ==> final(field).sound(),
    {
        let capacity: u64 = if self.summary_generated { 0 } else { UNIT };
        pulse(field, self.config.id.as_str(), AgentType::Analyst, capacity, HEARTBEAT_TTL);
    }
}


impl crate::agents::traits::OsintAgent for AnalystAgent {
    open spec fn ready(&self) -> bool {
        true
    }

    open spec fn spec_id(&self) -> Seq<char> {
        self.config.id@
    }

    open spec fn spec_agent_type(&self) -> Seq<char> {
        "analyst"@
    }

    open spec fn sensed(&self, live: Seq<Signal>, time: i64) -> Seq<Signal> {
        if self.summary_generated {
            Seq::empty()
        } else {
            live.filter(
                |s: Signal|
                    s.effective_at(time) >= self.config.sensing_threshold && (
                    s.payload.spec_kind() == PayloadKind::ScrapedContent || s.payload.spec_kind()
                        == PayloadKind::ExtractedArtifacts),
            )
        }
    }

    open spec fn began(
        &self,
        live: Seq<Signal>,
        time: i64,
        post: Self,
        after: Seq<Signal>,
        step: Step,
    ) -> bool {
        &&& self.starts(live, time, post, step)
        &&& after == live
    }

    open spec fn proceeded(
        &self,
        live: Seq<Signal>,
        time: i64,
        replies: Seq<Reply>,
        post: Self,
        after: Seq<Signal>,
        step: Step,
    ) -> bool {
        self.resumes(live, replies, post, after, step)
    }

    open spec fn beat(&self, live: Seq<Signal>, after: Seq<Signal>) -> bool {
    pulsed(
            live,
            after,
            self.config.id@,
            AgentType::Analyst,
            if self.summary_generated {
                0
            } else {
                UNIT
            },
            HEARTBEAT_TTL,
        )
    }

    fn id(&self) -> (r: &str) {
        AnalystAgent::id(self)
    }

    fn agent_type(&self) -> (r: &str) {
        AnalystAgent::agent_type(self)
    }

    fn sense<'a>(&self, field: &'a Field) -> (out: Vec<&'a Signal>) {
        let out = AnalystAgent::sense(self, field);
        proof {
            if !self.summary_generated {
                crate::agents::traits::lemma_observed(
                    out@,
                    field.live(),
                    |s: Signal|
                        s.effective_at(field.time()) >= self.config.sensing_threshold && (
                        s.payload.spec_kind() == PayloadKind::ScrapedContent || s.payload.spec_kind()
                            == PayloadKind::ExtractedArtifacts),
                );
            }
        }
        out
    }

    fn begin(&mut self, field: &mut Field) -> (step: Step) {
        AnalystAgent::start(self, field)
    }

    fn proceed(&mut self, field: &mut Field, replies: Vec<Reply>) -> (step: Step) {
        AnalystAgent::resume(self, field, replies)
    }

    fn heartbeat(&self, field: &mut Field) {
        AnalystAgent::heartbeat(self, field)
    }
}

/// An analyst that has not written its report yet and finds fewer than
/// three live pages is not ready.
pub proof fn lemma_waits_for_pages(
    analyst: AnalystAgent,
    live: Seq<Signal>,
    time: i64,
    post: AnalystAgent,
    step: Step,
)
    requires
        analyst.starts(live, time, post, step),
        !analyst.summary_generated,
        of_kind(live, time, 0, PayloadKind::ScrapedContent).len() < ANALYST_MIN_SOURCES,
    ensures
        step matches Step::Done(Err(AgentError::NotReady(_))),
        post.stage == analyst.stage,
{
}

/// An analyst that waits for the report and gets a completion emits one
/// summary with the completion as its report and the counts it took when
/// it asked, with confidence 0.95 and a lifetime of 300 seconds, returns
/// its key, and is done for good.
pub proof fn lemma_summary_written(
    analyst: AnalystAgent,
    live: Seq<Signal>,
    markdown: String,
    post: AnalystAgent,
    after: Seq<Signal>,
    step: Step,
)
    requires
        analyst.stage is Summary,
        analyst.resumes(live, seq![Reply::Completion(markdown)], post, after, step),
    ensures
        step matches Step::Done(Ok(hashes)) && hashes@.len() == 1 && exists|s: Signal|
            {
                &&& #[trigger] emit_step(live, s, after)
                &&& hashes@[0]@ == s.origin_hash@
                &&& is_summary(
                    s,
                    analyst.config.id@,
                    markdown@,
                    analyst.stage->Summary_artifact_count,
                    analyst.stage->Summary_source_count,
                )
            },
        post.summary_generated,
        post.stage is Idle,
{
    let replies = seq![Reply::Completion(markdown)];
    assert(replies[0] is Completion);
    assert(replies[0]->Completion_0 == markdown);
}

/// An analyst without specialists that has not written its report yet and
/// finds at least three live pages asks the lead analyst once; with the
/// completion it emits one summary that counts the live artifacts and the
/// live pages.
pub proof fn lemma_single_analyst_reports(
    analyst: AnalystAgent,
    live: Seq<Signal>,
    time: i64,
    asking: AnalystAgent,
    asked: Step,
    markdown: String,
    post: AnalystAgent,
    after: Seq<Signal>,
    step: Step,
)
    requires
        !analyst.summary_generated,
        analyst.registry is None,
        of_kind(live, time, 0, PayloadKind::ScrapedContent).len() >= ANALYST_MIN_SOURCES,
        analyst.starts(live, time, asking, asked),
        asking.resumes(live, seq![Reply::Completion(markdown)], post, after, step),
    ensures
        asked matches Step::Ask(requests) && requests@.len() == 1,
        step matches Step::Done(Ok(hashes)) && hashes@.len() == 1 && exists|s: Signal|
            {
                &&& #[trigger] emit_step(live, s, after)
                &&& hashes@[0]@ == s.origin_hash@
                &&& is_summary(
                    s,
                    analyst.config.id@,
                    markdown@,
                    flattened(of_kind(live, time, 0, PayloadKind::ExtractedArtifacts)).len() as usize,
                    of_kind(live, time, 0, PayloadKind::ScrapedContent).len() as usize,
                )
            },
        post.summary_generated,
{
    lemma_summary_written(asking, live, markdown, post, after, step);
}

/// An analyst that has written its report emits nothing more: it begins
/// no activation, and stays done.
pub proof fn lemma_done_for_good(
    analyst: AnalystAgent,
    live: Seq<Signal>,
    time: i64,
    post: AnalystAgent,
    step: Step,
)
    requires
        analyst.summary_generated,
        analyst.starts(live, time, post, step),
    ensures
        step matches Step::Done(Err(AgentError::NoWork)),
        post.summary_generated,
{
}

} // verus!
