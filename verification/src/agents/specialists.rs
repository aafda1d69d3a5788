//! Specialist analysts: each reads the collected material under its own
//! persona, and the lead analyst writes the report from what they say.

use vstd::prelude::*;
use crate::agents::backend::LlmBackend;
use crate::agents::persona::{is_analyst, persons, Persona, PersonaRegistry};
use crate::agents::traits::LlmError;
use crate::text::{
    chars_of, is_space, join, joined, prefix, push_chars, push_str, space, text_of, texts,
};

verus! {

/// Most characters of the collected text that the lead analyst is shown.
pub const SYNTHESIS_CONTENT_LIMIT: usize = 4000;

/// What a specialist said.
#[derive(Debug, Clone)]
pub struct SpecialistReport {
    pub analyst_id: String,
    pub analyst_name: String,
    pub analysis: String,
}

/// The specialists, the lead analyst and the model that plays them.
pub struct SpecialistSystem<B: LlmBackend> {
    backend: B,
    registry: PersonaRegistry,
}

/// The index of the last white space in `t`.
pub open spec fn last_space(t: Seq<char>) -> Option<int>
    decreases t.len(),
{
    if t.len() == 0 {
        None
    } else if is_space(t.last()) {
        Some(t.len() - 1)
    } else {
        last_space(t.drop_last())
    }
}

/// `content` cut to at most `max` characters, and there to the last white
/// space before the cut if there is one.
pub open spec fn truncated(content: Seq<char>, max: nat) -> Seq<char> {
    if content.len() <= max {
        content
    } else {
        match last_space(content.take(max as int)) {
            Some(pos) => content.take(pos),
            None => content.take(max as int),
        }
    }
}

/// What a specialist is shown.
pub open spec fn specialist_context(
    query: Seq<char>,
    content: Seq<char>,
    artifacts: Seq<char>,
) -> Seq<char> {
    "Original Query: "@ + query + "\n\n## Scraped Content\n"@ + content
        + "\n\n## Extracted Artifacts\n"@ + artifacts
}

/// A report as the lead analyst is shown it.
pub open spec fn report_section(name: Seq<char>, analysis: Seq<char>) -> Seq<char> {
    "### "@ + name + " Report\n"@ + analysis + "\n"@
}

/// All reports, a rule between each two.
pub open spec fn reports_text(reports: Seq<SpecialistReport>) -> Seq<char> {
    join(
        reports.map_values(|r: SpecialistReport| report_section(r.analyst_name@, r.analysis@)),
        "\n---\n\n"@,
    )
}

/// What the lead analyst is shown.
pub open spec fn synthesis_context(
    query: Seq<char>,
    content: Seq<char>,
    artifacts: Seq<char>,
    reports: Seq<SpecialistReport>,
) -> Seq<char> {
    "# Investigation Context\n\n## Original Query\n"@ + query + "\n\n## Raw Content Summary\n"@
        + truncated(content, SYNTHESIS_CONTENT_LIMIT as nat) + "\n\n## Extracted Artifacts\n"@
        + artifacts + "\n\n# Specialist Analyst Reports\n\n"@ + reports_text(reports)
}

/// What a report says: the specialist's id and name and the analysis.
pub open spec fn report_model(r: SpecialistReport) -> (Seq<char>, Seq<char>, Seq<char>) {
    (r.analyst_id@, r.analyst_name@, r.analysis@)
}

/// The reports of the specialists whose completion came, in their order.
pub open spec fn gathered(specialists: Seq<Persona>, outcomes: Seq<Option<Seq<char>>>) -> Seq<
    (Seq<char>, Seq<char>, Seq<char>),
>
    decreases specialists.len(),
{
    if specialists.len() == 0 || outcomes.len() != specialists.len() {
        Seq::empty()
    } else {
        let before = gathered(specialists.drop_last(), outcomes.drop_last());
        match outcomes.last() {
            Some(text) => before.push(
                (specialists.last().persona.id@, specialists.last().persona.name@, text),
            ),
            None => before,
        }
    }
}

/// The texts of a list of optional texts.
pub open spec fn opt_texts(v: Seq<Option<String>>) -> Seq<Option<Seq<char>>> {
    v.map_values(
        |o: Option<String>|
            match o {
                Some(s) => Some(s@),
                None => None,
            },
    )
}

/// `content` cut to at most `max_chars` characters, at a word boundary
/// where there is one.
pub fn truncate_content(content: &str, max_chars: usize) -> (r: String)
    ensures
        r@ == truncated(content@, max_chars as nat),
{
    let v = chars_of(content);
    if v.len() <= max_chars {
        return text_of(&v);
    }
    let ghost t = v@.take(max_chars as int);
    let mut j: usize = max_chars;
    assert(t.take(j as int) =~= t);
    while j > 0 && !space(v[j - 1])
        invariant
            j <= max_chars,
            max_chars < v@.len(),
            t == v@.take(max_chars as int),
            last_space(t) == last_space(t.take(j as int)),
        decreases j,
    {
        assert(t.take(j as int).last() == v@[j - 1]);
        assert(t.take(j as int).drop_last() =~= t.take(j - 1));
        j -= 1;
    }
    if j == 0 {
        text_of(&prefix(&v, max_chars))
    } else {
        assert(t.take(j as int).last() == v@[j - 1]);
        text_of(&prefix(&v, j - 1))
    }
}

/// The text that a specialist is shown.
pub fn context_for_specialists(query: &str, content: &str, artifacts: &str) -> (r: String)
    ensures
        r@ == specialist_context(query@, content@, artifacts@),
{
    let mut out = chars_of("Original Query: ");
    push_str(&mut out, query);
    push_str(&mut out, "\n\n## Scraped Content\n");
    push_str(&mut out, content);
    push_str(&mut out, "\n\n## Extracted Artifacts\n");
    push_str(&mut out, artifacts);
    text_of(&out)
}

/// The text that the lead analyst is shown.
pub fn context_for_synthesis(
    query: &str,
    content: &str,
    artifacts: &str,
    reports: &Vec<SpecialistReport>,
) -> (r: String)
    ensures
        r@ == synthesis_context(query@, content@, artifacts@, reports@),
{
    let mut sections: Vec<Vec<char>> = Vec::new();
    let mut k: usize = 0;
    while k < reports.len()
        invariant
            k <= reports.len(),
            sections@.len() == k,
            forall|j: int|
                0 <= j < k ==> (#[trigger] sections@[j])@ == report_section(
                    reports@[j].analyst_name@,
                    reports@[j].analysis@,
                ),
        decreases reports.len() - k,
    {
        let mut s = chars_of("### ");
        push_str(&mut s, reports[k].analyst_name.as_str());
        push_str(&mut s, " Report\n");
        push_str(&mut s, reports[k].analysis.as_str());
        push_str(&mut s, "\n");
        sections.push(s);
        k += 1;
    }
    assert(texts(sections@) =~= reports@.map_values(
        |r: SpecialistReport| report_section(r.analyst_name@, r.analysis@),
    ));
    let rule = chars_of("\n---\n\n");
    let all = joined(&sections, &rule);
    let cut = truncate_content(content, SYNTHESIS_CONTENT_LIMIT);
    let mut out = chars_of("# Investigation Context\n\n## Original Query\n");
    push_str(&mut out, query);
    push_str(&mut out, "\n\n## Raw Content Summary\n");
    push_str(&mut out, cut.as_str());
    push_str(&mut out, "\n\n## Extracted Artifacts\n");
    push_str(&mut out, artifacts);
    push_str(&mut out, "\n\n# Specialist Analyst Reports\n\n");
    push_chars(&mut out, &all);
    text_of(&out)
}

/// The reports of the specialists whose completion came.
pub fn collect_reports(specialists: &Vec<&Persona>, outcomes: &Vec<Option<String>>) -> (reports: Vec<
    SpecialistReport,
>)
    requires
        outcomes@.len() == specialists@.len(),
    ensures
        reports@.map_values(|r: SpecialistReport| report_model(r)) == gathered(
            persons(specialists@),
            opt_texts(outcomes@),
        ),
{
    let ghost ps = persons(specialists@);
    let ghost os = opt_texts(outcomes@);
    let ghost view = |r: SpecialistReport| report_model(r);
    let mut reports: Vec<SpecialistReport> = Vec::new();
    let mut k: usize = 0;
    proof {
        assert(ps.take(0) =~= Seq::<Persona>::empty());
        assert(reports@.map_values(view) =~= gathered(ps.take(0), os.take(0)));
    }
    while k < specialists.len()
        invariant
            k <= specialists.len(),
            outcomes@.len() == specialists@.len(),
            ps == persons(specialists@),
            os == opt_texts(outcomes@),
            view == |r: SpecialistReport| report_model(r),
            reports@.map_values(view) == gathered(ps.take(k as int), os.take(k as int)),
        decreases specialists.len() - k,
    {
        proof {
            assert(ps.take(k + 1).drop_last() =~= ps.take(k as int));
            assert(os.take(k + 1).drop_last() =~= os.take(k as int));
            assert(ps.take(k + 1).last() == *specialists@[k as int]);
            assert(os.take(k + 1).last() == os[k as int]);
        }
        match &outcomes[k] {
            Some(text) => {
                let ghost before = reports@.map_values(view);
                let r = SpecialistReport {
                    analyst_id: specialists[k].persona.id.clone(),
                    analyst_name: specialists[k].persona.name.clone(),
                    analysis: text.clone(),
                };
                reports.push(r);
                assert(reports@.map_values(view) =~= before.push(report_model(r)));
            },
            None => {},
        }
        k += 1;
    }
    proof {
        assert(ps.take(specialists@.len() as int) =~= ps);
        assert(os.take(specialists@.len() as int) =~= os);
    }
    reports
}

/// Whether `outcomes` may be the answers of `backend` to `context`, one
/// under the system prompt of each of `specialists`.
pub open spec fn consulted<B: LlmBackend>(
    backend: B,
    specialists: Seq<Persona>,
    context: Seq<char>,
    outcomes: Seq<Result<String, LlmError>>,
) -> bool {
    &&& outcomes.len() == specialists.len()
    &&& forall|k: int|
        0 <= k < outcomes.len() ==> backend.answers(
            specialists[k].prompt.system@,
            context,
            #[trigger] outcomes[k],
        )
}

/// The text of each completion that came.
pub open spec fn completions(outcomes: Seq<Result<String, LlmError>>) -> Seq<Option<Seq<char>>> {
    outcomes.map_values(
        |o: Result<String, LlmError>|
            match o {
                Ok(text) => Some(text@),
                Err(_) => None,
            },
    )
}

impl<B: LlmBackend> SpecialistSystem<B> {
    /// The personas of the system.
    pub closed spec fn personas(&self) -> PersonaRegistry {
        self.registry
    }

    /// The service that the system asks.
    pub closed spec fn service(&self) -> B {
        self.backend
    }

    /// A system with the built-in personas.
    pub fn new(backend: B) -> (s: SpecialistSystem<B>)
        ensures
            s.personas().wf(),
            crate::agents::persona::ids(s.personas().all())
                == crate::agents::persona::builtin_ids(),
    {
        SpecialistSystem { backend, registry: PersonaRegistry::load_embedded() }
    }

    /// A system with the given personas.
    pub fn with_registry(backend: B, registry: PersonaRegistry) -> (s: SpecialistSystem<B>)
        ensures
            s.personas() == registry,
    {
        SpecialistSystem { backend, registry }
    }

    /// The personas of the system.
    pub fn registry(&self) -> (r: &PersonaRegistry)
        ensures
            *r == self.personas(),
    {
        &self.registry
    }

    /// The names of the specialists.
    pub fn list_specialists(&self) -> (out: Vec<&str>)
        ensures
            ({
                let specialists = self.personas().specialists();
                &&& out@.len() == specialists.len()
                &&& forall|i: int|
                    0 <= i < out@.len() ==> (#[trigger] out@[i])@ == specialists[i].persona.name@
            }),
    {
        let specialists = self.registry.specialist_analysts();
        let mut out: Vec<&str> = Vec::new();
        let mut k: usize = 0;
        while k < specialists.len()
            invariant
                k <= specialists.len(),
                out@.len() == k,
                forall|i: int|
                    0 <= i < k ==> (#[trigger] out@[i])@ == persons(specialists@)[i].persona.name@,
            decreases specialists.len() - k,
        {
            assert(persons(specialists@)[k as int] == *specialists@[k as int]);
            out.push(specialists[k].persona.name.as_str());
            k += 1;
        }
        out
    }

    /// Whether `reports` may be what the specialists report: each was
    /// asked about the query, the content and the artifacts, and the
    /// reports are those of the specialists whose completion came.
    pub open spec fn reported(
        &self,
        query: Seq<char>,
        content: Seq<char>,
        artifacts: Seq<char>,
        reports: Seq<SpecialistReport>,
    ) -> bool {
        exists|outcomes: Seq<Result<String, LlmError>>|
            {
                &&& #[trigger] consulted(
                    self.service(),
                    self.personas().specialists(),
                    specialist_context(query, content, artifacts),
                    outcomes,
                )
                &&& reports.map_values(|r: SpecialistReport| report_model(r)) == gathered(
                    self.personas().specialists(),
                    completions(outcomes),
                )
            }
    }

    /// Whether `r` may be the lead analyst's word on `reports`: without a
    /// lead analyst it is an error; else it is the service's answer, under
    /// the system prompt of the first lead analyst, to the query, the
    /// content, the artifacts and the reports.
    pub open spec fn synthesized(
        &self,
        query: Seq<char>,
        content: Seq<char>,
        artifacts: Seq<char>,
        reports: Seq<SpecialistReport>,
        r: Result<String, LlmError>,
    ) -> bool {
        if self.personas().leaderless() {
            r matches Err(LlmError::Api(m)) && m@ == "No lead analyst persona found"@
        } else {
            exists|i: int|
                {
                    &&& #[trigger] crate::agents::persona::first_lead(self.personas().all(), i)
                    &&& self.service().answers(
                        self.personas().all()[i].prompt.system@,
                        synthesis_context(query, content, artifacts, reports),
                        r,
                    )
                }
        }
    }

    /// Asks each specialist in turn and returns the reports of those whose
    /// completion came.
    pub fn analyze_with_specialists(&self, query: &str, content: &str, artifacts: &str) -> (reports:
        Vec<SpecialistReport>)
        ensures
            self.reported(query@, content@, artifacts@, reports@),
    {
        let specialists = self.registry.specialist_analysts();
        let context = context_for_specialists(query, content, artifacts);
        let mut outcomes: Vec<Option<String>> = Vec::new();
        let ghost mut answers: Seq<Result<String, LlmError>> = Seq::empty();
        let mut k: usize = 0;
        while k < specialists.len()
            invariant
                k <= specialists.len(),
                outcomes@.len() == k,
                opt_texts(outcomes@) == completions(answers),
                consulted(self.backend, persons(specialists@).take(k as int), context@, answers),
            decreases specialists.len() - k,
        {
            assert(persons(specialists@)[k as int] == *specialists@[k as int]);
            let answer = self.backend.generate(specialists[k].system_prompt(), context.as_str());
            let ghost before = outcomes@;
            proof {
                assert(completions(answers.push(answer)) =~= completions(answers).push(
                    match answer {
                        Ok(text) => Some(text@),
                        Err(_) => None,
                    },
                ));
                answers = answers.push(answer);
            }
            let outcome = match answer {
                Ok(text) => Some(text),
                Err(_) => None,
            };
            outcomes.push(outcome);
            assert(opt_texts(outcomes@) =~= opt_texts(before).push(
                crate::artifacts::opt_text(outcome),
            ));
            k += 1;
        }
        let reports = collect_reports(&specialists, &outcomes);
        proof {
            assert(persons(specialists@).take(specialists@.len() as int) =~= persons(specialists@));
            assert(persons(specialists@) == self.personas().specialists());
            assert(consulted(
                self.service(),
                self.personas().specialists(),
                specialist_context(query@, content@, artifacts@),
                answers,
            ));
        }
        reports
    }

    /// Asks the lead analyst for the report. Without a lead analyst there
    /// is none; else the service decides.
    pub fn synthesize(
        &self,
        query: &str,
        content: &str,
        artifacts: &str,
        specialist_reports: &Vec<SpecialistReport>,
    ) -> (r: Result<String, LlmError>)
        ensures
            self.synthesized(query@, content@, artifacts@, specialist_reports@, r),
    {
        let lead = match self.registry.lead_analyst() {
            Some(p) => p,
            None => {
                return Err(LlmError::Api("No lead analyst persona found".to_owned()));
            },
        };
        let ghost i = choose|i: int|
            #[trigger] crate::agents::persona::first_lead(self.registry.all(), i)
                && self.registry.all()[i] == *lead;
        assert(is_analyst(self.registry.all()[i], "orchestrator"@));
        let context = context_for_synthesis(query, content, artifacts, specialist_reports);
        self.backend.generate(lead.system_prompt(), context.as_str())
    }

    /// Asks the specialists, then the lead analyst about their reports.
    pub fn full_analysis(&self, query: &str, content: &str, artifacts: &str) -> (r: Result<
        String,
        LlmError,
    >)
        ensures
            exists|reports: Seq<SpecialistReport>|
                {
                    &&& #[trigger] self.reported(query@, content@, artifacts@, reports)
                    &&& self.synthesized(query@, content@, artifacts@, reports, r)
                },
    {
        let reports = self.analyze_with_specialists(query, content, artifacts);
        self.synthesize(query, content, artifacts, &reports)
    }
}

} // verus!
