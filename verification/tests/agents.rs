use robin_smesh::agents::analyst::{render_artifacts, AnalystAgent, AnalystStage};
use robin_smesh::agents::backend::{
    create_anthropic_backend, create_backend, AnthropicConfig, LlmBackend, OpenAIBackendConfig,
};
use robin_smesh::agents::crawler::CrawlerAgent;
use robin_smesh::agents::extractor::ExtractorAgent;
use robin_smesh::agents::filter::{parse_indices, FilterAgent, Listed};
use robin_smesh::agents::persona::{
    default_format, default_max_tokens, ExpertiseConfig, OutputConfig, Persona, PersonaMetadata,
    PersonaRegistry, PromptConfig,
};
use robin_smesh::agents::refiner::RefinerAgent;
use robin_smesh::agents::scraper::ScraperAgent;
use robin_smesh::agents::specialists::{
    collect_reports, context_for_specialists, context_for_synthesis, truncate_content,
    SpecialistReport, SpecialistSystem,
};
use robin_smesh::agents::traits::{
    AgentConfig, AgentError, LlmError, OsintAgent, Reply, Request, Step,
};
use robin_smesh::artifacts::{Artifact, ArtifactType};
use robin_smesh::field::Field;
use robin_smesh::signals::{OsintPayload, Signal};

struct MockBackend;

impl LlmBackend for MockBackend {
    fn generate(&self, _system: &str, user: &str) -> Result<String, LlmError> {
        Ok(format!("refined: {}", user))
    }

    fn model_name(&self) -> &str {
        "mock"
    }
}

struct DeadBackend;

impl LlmBackend for DeadBackend {
    fn generate(&self, _system: &str, _user: &str) -> Result<String, LlmError> {
        Err(LlmError::RateLimited)
    }

    fn model_name(&self) -> &str {
        "dead"
    }
}

fn emit(field: &mut Field, payload: OsintPayload, origin: &str) -> String {
    field.emit(Signal::builder(payload).origin(origin).build())
}

fn scraped(url: &str, text: &str) -> OsintPayload {
    OsintPayload::ScrapedContent {
        url: url.to_string(),
        title: "Test".to_string(),
        text: text.to_string(),
        char_count: text.chars().count(),
    }
}

fn asked(step: Step) -> Vec<Request> {
    match step {
        Step::Ask(r) => r,
        Step::Done(d) => panic!("expected requests, got {:?}", d),
    }
}

fn done(step: Step) -> Result<Vec<String>, AgentError> {
    match step {
        Step::Done(d) => d,
        Step::Ask(r) => panic!("expected an end, got {} requests", r.len()),
    }
}

#[test]
fn test_refiner_sense() {
    let config = AgentConfig::default().with_id("refiner-1");
    let agent = RefinerAgent::new(config);

    let mut field = Field::new();
    emit(&mut field, OsintPayload::UserQuery { query: "ransomware payments".to_string(), priority: 800_000 }, "user");

    let sensed = agent.sense(&field);
    assert_eq!(sensed.len(), 1);
}

#[test]
fn test_extractor_sense() {
    let config = AgentConfig::default().with_id("extractor-1");
    let agent = ExtractorAgent::new(config);

    let mut field = Field::new();
    emit(
        &mut field,
        scraped("http://test.onion", "Contact: admin@test.onion BTC: 1A1zP1eP5QGefi2DMPTfTL5SLmv7DivfNa"),
        "scraper",
    );

    let sensed = agent.sense(&field);
    assert_eq!(sensed.len(), 1);
}

#[test]
fn test_load_embedded_personas() {
    let registry = PersonaRegistry::load_embedded();
    assert!(registry.len() >= 9, "Should load at least 9 personas");

    assert!(registry.get("refiner").is_some());
    assert!(registry.get("filter").is_some());
    assert!(registry.get("analyst_lead").is_some());
    assert!(registry.get("analyst_crypto").is_some());
}

#[test]
fn test_specialist_analysts() {
    let registry = PersonaRegistry::load_embedded();
    let specialists = registry.specialist_analysts();

    assert!(specialists.len() >= 6, "Should have at least 6 specialist analysts");
}

#[test]
fn test_lead_analyst() {
    let registry = PersonaRegistry::load_embedded();
    let lead = registry.lead_analyst();

    assert!(lead.is_some());
    assert_eq!(lead.unwrap().persona.id, "analyst_lead");
}

#[test]
fn test_specialist_system_creation() {
    let system = SpecialistSystem::new(MockBackend);

    let specialists = system.list_specialists();
    assert!(specialists.len() >= 6, "Should have multiple specialists");
}

#[test]
fn test_full_analysis() {
    let system = SpecialistSystem::new(MockBackend);

    let result = system.full_analysis("test query", "test content", "test artifacts");

    assert!(result.is_ok());
}

#[test]
fn agent_config_defaults() {
    let c = AgentConfig::default();
    assert_eq!(c.id.chars().count(), 8);
    assert_eq!(c.sensing_threshold, 100_000);
    assert_eq!(c.max_concurrent, 3);
    let d = AgentConfig::default();
    assert_ne!(c.id, d.id);
    let e = c.with_id("x-1").with_threshold(250_000);
    assert_eq!(e.id, "x-1");
    assert_eq!(e.sensing_threshold, 250_000);
    assert_eq!(e.max_concurrent, 3);
}

#[test]
fn errors_in_words() {
    assert_eq!(AgentError::Llm("a".into()).message(), "LLM error: a");
    assert_eq!(AgentError::Network("b".into()).message(), "Network error: b");
    assert_eq!(AgentError::Parse("c".into()).message(), "Parse error: c");
    assert_eq!(AgentError::NoWork.message(), "No work available");
    assert_eq!(AgentError::NotReady("d".into()).message(), "Agent not ready: d");
    assert_eq!(LlmError::Api("e".into()).message(), "API error: e");
    assert_eq!(LlmError::Config("f".into()).message(), "Configuration error: f");
    assert_eq!(LlmError::RateLimited.message(), "Rate limited");
    assert_eq!(LlmError::EmptyResponse.message(), "Empty response");
}

#[test]
fn persona_registry() {
    let persona = |id: &str, category: &str, role: Option<&str>| Persona {
        persona: PersonaMetadata {
            id: id.to_string(),
            name: id.to_uppercase(),
            category: category.to_string(),
            enabled: true,
            role: role.map(|r| r.to_string()),
        },
        expertise: ExpertiseConfig {
            domains: vec!["crypto".to_string()],
            artifact_types: vec!["bitcoin".to_string()],
        },
        prompt: PromptConfig { system: format!("you are {}", id) },
        output: OutputConfig { format: default_format(), max_tokens: default_max_tokens() },
    };
    let mut r = PersonaRegistry::new();
    assert!(r.is_empty());
    assert!(r.lead_analyst().is_none());
    r.register(persona("a", "analyst", Some("specialist")));
    r.register(persona("b", "analyst", Some("orchestrator")));
    r.register(persona("c", "filter", None));
    r.register(persona("a", "refiner", None));
    assert_eq!(r.len(), 3);
    assert!(!r.is_empty());
    assert_eq!(r.list_ids(), vec!["a", "b", "c"]);
    assert_eq!(r.get("a").unwrap().persona.category, "refiner");
    assert!(r.get("z").is_none());
    assert_eq!(r.by_category("analyst").len(), 1);
    assert_eq!(r.specialist_analysts().len(), 0);
    assert_eq!(r.lead_analyst().unwrap().persona.id, "b");
    let p = r.get("b").unwrap();
    assert_eq!(p.system_prompt(), "you are b");
    assert!(p.handles_artifact("bitcoin"));
    assert!(!p.handles_artifact("email"));
    assert!(p.covers_domain("crypto"));
    assert!(!p.covers_domain("malware"));
    assert_eq!(default_format(), "markdown");
    assert_eq!(default_max_tokens(), 2048);
    let mut off = persona("d", "analyst", Some("specialist"));
    off.persona.enabled = false;
    assert!(!r.register_enabled(off));
    assert_eq!(r.list_ids(), vec!["a", "b", "c"]);
    assert!(r.register_enabled(persona("d", "analyst", Some("specialist"))));
    assert_eq!(r.list_ids(), vec!["a", "b", "c", "d"]);
    let mut off = persona("b", "analyst", None);
    off.persona.enabled = false;
    assert!(!r.register_enabled(off));
    assert_eq!(r.lead_analyst().unwrap().persona.id, "b");
    let all = PersonaRegistry::load_embedded();
    assert_eq!(all.len(), 9);
    assert!(all.get("analyst_osint").unwrap().handles_artifact("anything"));
    assert_eq!(PersonaRegistry::default().len(), 0);
}

#[test]
fn contexts_for_the_model() {
    assert_eq!(
        context_for_specialists("q", "c", "a"),
        "Original Query: q\n\n## Scraped Content\nc\n\n## Extracted Artifacts\na"
    );
    let reports = vec![
        SpecialistReport { analyst_id: "1".into(), analyst_name: "One".into(), analysis: "first".into() },
        SpecialistReport { analyst_id: "2".into(), analyst_name: "Two".into(), analysis: "second".into() },
    ];
    assert_eq!(
        context_for_synthesis("q", "c", "a", &reports),
        "# Investigation Context\n\n## Original Query\nq\n\n## Raw Content Summary\nc\n\n## Extracted Artifacts\na\n\n# Specialist Analyst Reports\n\n### One Report\nfirst\n\n---\n\n### Two Report\nsecond\n"
    );
    assert_eq!(truncate_content("short", 10), "short");
    assert_eq!(truncate_content("hello wide world", 12), "hello wide");
    assert_eq!(truncate_content("helloworld", 4), "hell");
    assert_eq!(truncate_content("abc def", 4), "abc");
}

#[test]
fn specialists_that_fail_leave_no_report() {
    let system = SpecialistSystem::new(DeadBackend);
    assert!(system.analyze_with_specialists("q", "c", "a").is_empty());
    assert!(system.full_analysis("q", "c", "a").is_err());
    let system = SpecialistSystem::new(MockBackend);
    let reports = system.analyze_with_specialists("q", "c", "a");
    assert_eq!(reports.len(), 6);
    assert_eq!(reports[0].analyst_id, "analyst_crypto");
    assert_eq!(reports[0].analyst_name, "Cryptocurrency Analyst");
    assert!(reports[0].analysis.starts_with("refined: Original Query: q"));
    let empty = SpecialistSystem::with_registry(MockBackend, PersonaRegistry::new());
    assert!(empty.registry().is_empty());
    match empty.synthesize("q", "c", "a", &[].to_vec()) {
        Err(LlmError::Api(m)) => assert_eq!(m, "No lead analyst persona found"),
        other => panic!("unexpected {:?}", other),
    }
    let registry = PersonaRegistry::load_embedded();
    let two: Vec<&Persona> = registry.specialist_analysts().into_iter().take(2).collect();
    let got = collect_reports(&two, &vec![None, Some("x".to_string())]);
    assert_eq!(got.len(), 1);
    assert_eq!(got[0].analyst_id, "analyst_forensic");
    assert_eq!(got[0].analysis, "x");
}

#[test]
fn refiner_emits_refined_queries() {
    let mut field = Field::new();
    let mut agent = RefinerAgent::new(AgentConfig::default().with_id("refiner-1"));
    assert!(matches!(done(agent.start(&field)), Err(AgentError::NoWork)));
    emit(&mut field, OsintPayload::UserQuery { query: "ransomware payments".to_string(), priority: 800_000 }, "user");
    let requests = asked(agent.start(&field));
    assert_eq!(requests.len(), 1);
    match &requests[0] {
        Request::Completion { system, user } => {
            assert!(system.contains("Refine the provided search query"));
            assert_eq!(user, "ransomware payments");
        },
        other => panic!("unexpected {:?}", other),
    }
    let hashes = done(agent.resume(&mut field, vec![Reply::Completion("  ransomware bitcoin wallet \n".to_string())])).unwrap();
    assert_eq!(hashes.len(), 1);
    let s = field.get(&hashes[0]).unwrap();
    assert_eq!(s.confidence, 800_000);
    assert_eq!(s.ttl, 120_000);
    assert_eq!(s.origin_agent_id, "refiner-1");
    match &s.payload {
        OsintPayload::RefinedQuery { original, refined, confidence } => {
            assert_eq!(original, "ransomware payments");
            assert_eq!(refined, "ransomware bitcoin wallet");
            assert_eq!(*confidence, 900_000);
        },
        other => panic!("unexpected {:?}", other),
    }
    assert_eq!(agent.sense(&field).len(), 0);
    assert!(matches!(done(agent.start(&field)), Err(AgentError::NoWork)));
    assert!(matches!(done(agent.resume(&mut field, vec![])), Err(AgentError::NoWork)));
}

#[test]
fn refiner_keeps_a_query_that_the_model_failed_on() {
    let mut field = Field::new();
    let mut agent = RefinerAgent::new(AgentConfig::default().with_id("refiner-1"));
    emit(&mut field, OsintPayload::UserQuery { query: "one".to_string(), priority: 1_000_000 }, "user");
    emit(&mut field, OsintPayload::UserQuery { query: "two".to_string(), priority: 1_000_000 }, "user");
    assert_eq!(asked(agent.start(&field)).len(), 2);
    let r = done(agent.resume(
        &mut field,
        vec![Reply::Completion("uno".to_string()), Reply::NoCompletion(LlmError::RateLimited)],
    ));
    match r {
        Err(AgentError::Llm(m)) => assert_eq!(m, "Rate limited"),
        other => panic!("unexpected {:?}", other),
    }
    assert_eq!(field.sense_by_type(0).refined_queries.len(), 1);
    assert_eq!(agent.processed_queries, vec!["one".to_string()]);
    let again = asked(agent.start(&field));
    assert_eq!(again.len(), 1);
}

#[test]
fn indices_of_the_filter() {
    assert_eq!(parse_indices("3, 1, 2", 5), vec![3, 1, 2]);
    assert_eq!(parse_indices("Top: 7,2;2 and 0 then 99, 4x5", 7), vec![7, 2, 4, 5]);
    assert_eq!(parse_indices("", 5), Vec::<usize>::new());
    assert_eq!(parse_indices("none", 5), Vec::<usize>::new());
    assert_eq!(parse_indices("007 99999999999999999999999999 1", 7), vec![7, 1]);
    let many: Vec<String> = (1..=30).map(|i| i.to_string()).collect();
    let picked = parse_indices(&many.join(","), 50);
    assert_eq!(picked.len(), 20);
    assert_eq!(picked[19], 20);
}

#[test]
fn filter_ranks_results() {
    let mut field = Field::new();
    let mut agent = FilterAgent::new(AgentConfig::default().with_id("filter-1"));
    assert!(matches!(done(agent.start(&field)), Err(AgentError::NoWork)));
    emit(
        &mut field,
        OsintPayload::RefinedQuery { original: "o".into(), refined: "leak data".into(), confidence: 900_000 },
        "refiner-1",
    );
    assert!(matches!(done(agent.start(&field)), Err(AgentError::NoWork)));
    for i in 1..=3 {
        emit(
            &mut field,
            OsintPayload::RawResult {
                url: format!("http://site{}abcdefghijklmnop.onion/path/{}", i, i),
                title: format!("Title {}", i),
                engine: "E".into(),
            },
            "crawler-1",
        );
    }
    assert_eq!(agent.sense(&field).len(), 3);
    let requests = asked(agent.start(&field));
    match &requests[0] {
        Request::Completion { system, user } => {
            assert!(system.contains("Search Query: leak data\n"));
            assert!(!system.contains("{query}"));
            assert_eq!(
                user,
                "1. http://site1abcdefghijklmnop.onion - Title 1\n2. http://site2abcdefghijklmnop.onion - Title 2\n3. http://site3abcdefghijklmnop.onion - Title 3"
            );
        },
        other => panic!("unexpected {:?}", other),
    }
    let hashes = done(agent.resume(&mut field, vec![Reply::Completion("3, 1, 3, 9".to_string())])).unwrap();
    assert_eq!(hashes.len(), 2);
    let first = field.get(&hashes[0]).unwrap();
    assert_eq!(first.confidence, 850_000);
    assert_eq!(first.ttl, 120_000);
    match &first.payload {
        OsintPayload::FilteredResult { url, title, relevance, reason } => {
            assert_eq!(url, "http://site3abcdefghijklmnop.onion/path/3");
            assert_eq!(title, "Title 3");
            assert_eq!(*relevance, 1_000_000);
            assert_eq!(reason, "Ranked #1");
        },
        other => panic!("unexpected {:?}", other),
    }
    match &field.get(&hashes[1]).unwrap().payload {
        OsintPayload::FilteredResult { url, relevance, reason, .. } => {
            assert_eq!(url, "http://site1abcdefghijklmnop.onion/path/1");
            assert_eq!(*relevance, 970_000);
            assert_eq!(reason, "Ranked #2");
        },
        other => panic!("unexpected {:?}", other),
    }
    asked(agent.start(&field));
    let failed = done(agent.resume(&mut field, vec![Reply::NoCompletion(LlmError::EmptyResponse)]));
    match failed {
        Err(AgentError::Llm(m)) => assert_eq!(m, "Empty response"),
        other => panic!("unexpected {:?}", other),
    }
    let listing = FilterAgent::render(&vec![Listed { url: "http://clear.example.com/x".into(), title: "T".into() }]);
    assert_eq!(listing, "1. http://clear.example.com/x - T");
}

#[test]
fn crawler_emits_each_onion_link_once() {
    let mut field = Field::new();
    let mut agent = CrawlerAgent::with_default_tor(AgentConfig::default().with_id("crawler-1"));
    assert!(matches!(done(agent.start(&field)), Err(AgentError::NoWork)));
    emit(
        &mut field,
        OsintPayload::RefinedQuery { original: "o".into(), refined: "leak data".into(), confidence: 900_000 },
        "refiner-1",
    );
    let requests = asked(agent.start(&field));
    assert_eq!(requests.len(), 16);
    match &requests[0] {
        Request::Fetch { url, headers, through_tor } => {
            assert!(url.ends_with(".onion/search/?q=leak+data"));
            assert!(headers.is_empty());
            assert!(*through_tor);
        },
        other => panic!("unexpected {:?}", other),
    }
    let html = r#"<html><body>
        <a href="http://alpha234567abcdefgh.onion/market">Alpha Market</a>
        <a href="http://engine.onion/search?q=leak">Search again</a>
        <a href="http://beta2345672abcdefgh.onion/forum">Beta Forum</a>
        <a href="http://alpha234567abcdefgh.onion/market/">Alpha Market again</a>
    </body></html>"#;
    let mut replies = vec![Reply::Page { status: 200, body: html.to_string() }];
    replies.push(Reply::Page { status: 503, body: html.replace("alpha", "gamma") });
    replies.push(Reply::NoPage("timeout".to_string()));
    let hashes = done(agent.resume(&mut field, replies)).unwrap();
    assert_eq!(hashes.len(), 2);
    let raw = field.sense_by_type(0).raw_results;
    assert_eq!(raw.len(), 2);
    match &raw[0].payload {
        OsintPayload::RawResult { url, title, engine } => {
            assert_eq!(url, "http://alpha234567abcdefgh.onion/market");
            assert_eq!(title, "Alpha Market");
            assert_eq!(engine, "Ahmia");
        },
        other => panic!("unexpected {:?}", other),
    }
    assert_eq!(raw[0].confidence, 700_000);
    assert_eq!(raw[0].ttl, 90_000);
    assert!(matches!(done(agent.start(&field)), Err(AgentError::NoWork)));
    assert!(matches!(done(agent.resume(&mut field, vec![])), Err(AgentError::NoWork)));
}

#[test]
fn scraper_marks_pages_whatever_comes_back() {
    let mut field = Field::new();
    let mut agent = ScraperAgent::with_default_tor(AgentConfig::default().with_id("scraper-1"));
    for i in 1..=4 {
        emit(
            &mut field,
            OsintPayload::FilteredResult {
                url: format!("http://s{}.onion/", i),
                title: format!("Listed {}", i),
                relevance: 1_000_000,
                reason: "r".into(),
            },
            "filter-1",
        );
    }
    let requests = asked(agent.start(&field));
    assert_eq!(requests.len(), 3);
    let replies = vec![
        Reply::Page { status: 200, body: "<html><head><title>Real</title></head><body><p>Some  text</p></body></html>".into() },
        Reply::NoPage("dead".into()),
        Reply::Page { status: 200, body: "<html><body>  </body></html>".into() },
    ];
    let hashes = done(agent.resume(&mut field, replies)).unwrap();
    assert_eq!(hashes.len(), 1);
    let s = field.get(&hashes[0]).unwrap();
    assert_eq!(s.confidence, 900_000);
    assert_eq!(s.ttl, 180_000);
    match &s.payload {
        OsintPayload::ScrapedContent { url, title, text, char_count } => {
            assert_eq!(url, "http://s1.onion/");
            assert_eq!(title, "Real");
            assert_eq!(text, "Some text");
            assert_eq!(*char_count, 9);
        },
        other => panic!("unexpected {:?}", other),
    }
    assert_eq!(agent.scraped_urls.len(), 3);
    let rest = asked(agent.start(&field));
    assert_eq!(rest.len(), 1);
    let hashes = done(agent.resume(
        &mut field,
        vec![Reply::Page { status: 200, body: "<html><body>untitled page</body></html>".into() }],
    ))
    .unwrap();
    match &field.get(&hashes[0]).unwrap().payload {
        OsintPayload::ScrapedContent { title, .. } => assert_eq!(title, "Listed 4"),
        other => panic!("unexpected {:?}", other),
    }
    assert!(matches!(done(agent.start(&field)), Err(AgentError::NoWork)));
}

#[test]
fn extractor_emits_artifacts_of_pages_that_have_some() {
    let mut field = Field::new();
    let mut agent = ExtractorAgent::new(AgentConfig::default().with_id("extractor-1"));
    assert!(matches!(agent.process(&mut field), Err(AgentError::NoWork)));
    emit(&mut field, scraped("http://a.onion", "pay 1A1zP1eP5QGefi2DMPTfTL5SLmv7DivfNa or write admin@example.onion"), "scraper-1");
    emit(&mut field, scraped("http://b.onion", "nothing of interest"), "scraper-1");
    let hashes = agent.process(&mut field).unwrap();
    assert_eq!(hashes.len(), 1);
    let s = field.get(&hashes[0]).unwrap();
    assert_eq!(s.confidence, 850_000);
    assert_eq!(s.ttl, 180_000);
    match &s.payload {
        OsintPayload::ExtractedArtifacts { source_url, artifacts } => {
            assert_eq!(source_url, "http://a.onion");
            assert_eq!(artifacts.iter().filter(|a| a.artifact_type == ArtifactType::Bitcoin).count(), 1);
            assert_eq!(artifacts.iter().filter(|a| a.artifact_type == ArtifactType::Email).count(), 1);
            assert!(!artifacts.iter().any(|a| a.artifact_type == ArtifactType::Domain));
            assert!(artifacts.iter().all(|a| a.source.as_deref() == Some("http://a.onion")));
        },
        other => panic!("unexpected {:?}", other),
    }
    assert_eq!(agent.processed_urls.len(), 2);
    assert!(matches!(agent.process(&mut field), Err(AgentError::NoWork)));
}

#[test]
fn analyst_waits_for_three_pages() {
    let mut field = Field::new();
    let mut agent = AnalystAgent::new(AgentConfig::default().with_id("analyst-1"));
    assert!(!agent.has_specialists());
    assert!(agent.list_specialists().is_empty());
    emit(&mut field, scraped("http://a.onion", "text a"), "scraper-1");
    emit(&mut field, scraped("http://b.onion", "text b"), "scraper-1");
    match done(agent.start(&field)) {
        Err(AgentError::NotReady(why)) => assert_eq!(why, "Only 2 content signals, waiting for more"),
        other => panic!("unexpected {:?}", other),
    }
    assert_eq!(agent.sense(&field).len(), 2);
}

#[test]
fn analyst_writes_one_summary() {
    let mut field = Field::new();
    let mut agent = AnalystAgent::new(AgentConfig::default().with_id("analyst-1"));
    emit(
        &mut field,
        OsintPayload::RefinedQuery { original: "the question".into(), refined: "q".into(), confidence: 900_000 },
        "refiner-1",
    );
    let long = "x".repeat(1600);
    emit(&mut field, scraped("http://a.onion", &long), "scraper-1");
    emit(&mut field, scraped("http://b.onion", "text b"), "scraper-1");
    emit(&mut field, scraped("http://c.onion", "text c"), "scraper-1");
    emit(
        &mut field,
        OsintPayload::ExtractedArtifacts {
            source_url: "http://a.onion".into(),
            artifacts: vec![
                Artifact::new(ArtifactType::Bitcoin, "1abc".into()).with_confidence(950_000),
                Artifact::new(ArtifactType::Cve, "CVE-2020-1".into()),
            ],
        },
        "extractor-1",
    );
    let requests = asked(agent.start(&field));
    assert_eq!(requests.len(), 1);
    match &requests[0] {
        Request::Completion { system, user } => {
            assert_eq!(system, "Analyze the following OSINT data and provide a summary.");
            assert!(user.starts_with("# Investigation Context\n\n## Original Query\nthe question\n\n## Scraped Content\n### http://a.onion\n"));
            assert!(user.contains(&format!("{}...\n", "x".repeat(1500))));
            assert!(!user.contains(&"x".repeat(1501)));
            assert!(user.contains("### http://b.onion\ntext b\n\n### http://c.onion\ntext c\n"));
            assert!(user.ends_with("## Extracted Artifacts\n- Bitcoin: 1abc (confidence: 0.95)\n- Cve: CVE-2020-1 (confidence: 1.00)"));
        },
        other => panic!("unexpected {:?}", other),
    }
    assert!(matches!(agent.stage, AnalystStage::Summary { artifact_count: 2, source_count: 3 }));
    let hashes = done(agent.resume(&mut field, vec![Reply::Completion("# Report".into())])).unwrap();
    assert_eq!(hashes.len(), 1);
    let s = field.get(&hashes[0]).unwrap();
    assert_eq!(s.confidence, 950_000);
    assert_eq!(s.ttl, 300_000);
    match &s.payload {
        OsintPayload::Summary { markdown, artifact_count, source_count } => {
            assert_eq!(markdown, "# Report");
            assert_eq!(*artifact_count, 2);
            assert_eq!(*source_count, 3);
        },
        other => panic!("unexpected {:?}", other),
    }
    assert!(agent.summary_generated);
    for _ in 0..10 {
        assert!(matches!(done(agent.start(&field)), Err(AgentError::NoWork)));
        agent.heartbeat(&mut field);
    }
    assert_eq!(field.sense_by_type(0).summaries.len(), 1);
    assert!(agent.sense(&field).is_empty());
    let beat = field.sense_by_type(0).heartbeats;
    match &beat[0].payload {
        OsintPayload::Heartbeat { capacity, .. } => assert_eq!(*capacity, 0),
        other => panic!("unexpected {:?}", other),
    }
    assert_eq!(beat[0].ttl, 10_000);
}

#[test]
fn analyst_with_specialists_asks_twice() {
    let mut field = Field::new();
    let mut agent = AnalystAgent::new_with_specialists(AgentConfig::default().with_id("analyst-1"));
    assert!(agent.has_specialists());
    assert_eq!(agent.list_specialists().len(), 6);
    for u in ["a", "b", "c"] {
        emit(&mut field, scraped(&format!("http://{}.onion", u), "text"), "scraper-1");
    }
    let first = asked(agent.start(&field));
    assert_eq!(first.len(), 6);
    let mut replies: Vec<Reply> = (0..6).map(|i| Reply::Completion(format!("finding {}", i))).collect();
    replies[1] = Reply::NoCompletion(LlmError::RateLimited);
    let second = asked(agent.resume(&mut field, replies));
    assert_eq!(second.len(), 1);
    match &second[0] {
        Request::Completion { user, .. } => {
            assert!(user.contains("## Original Query\nUnknown query\n"));
            assert!(user.contains("### Cryptocurrency Analyst Report\nfinding 0\n"));
            assert!(!user.contains("finding 1"));
            assert!(user.contains("### OSINT Analyst Report\nfinding 5\n"));
        },
        other => panic!("unexpected {:?}", other),
    }
    let failed = done(agent.resume(&mut field, vec![Reply::NoCompletion(LlmError::Api("down".into()))]));
    match failed {
        Err(AgentError::Llm(m)) => assert_eq!(m, "API error: down"),
        other => panic!("unexpected {:?}", other),
    }
    assert!(!agent.summary_generated);
    assert_eq!(field.sense_by_type(0).summaries.len(), 0);
    assert_eq!(asked(agent.start(&field)).len(), 6);
}

#[test]
fn artifacts_for_the_model_are_rounded() {
    let a = Artifact::new(ArtifactType::Email, "x@y.z".into()).with_confidence(854_999);
    let b = Artifact::new(ArtifactType::Custom("tag".into()), "v".into()).with_confidence(5_000);
    assert_eq!(
        render_artifacts(&vec![&a, &b]),
        "- Email: x@y.z (confidence: 0.85)\n- Custom(\"tag\"): v (confidence: 0.01)"
    );
}

#[test]
fn backends_build_requests_and_read_replies() {
    let b = create_anthropic_backend(AnthropicConfig::new("key", "model-a")).unwrap();
    assert_eq!(b.model_name(), "model-a");
    assert_eq!(b.config.max_tokens, 4096);
    let p = b.request("sys \"x\"", "hello\n");
    assert_eq!(p.url, "https://api.anthropic.com/v1/messages");
    assert_eq!(
        p.body,
        r#"{"model":"model-a","max_tokens":4096,"system":"sys \"x\"","messages":[{"role":"user","content":"hello\n"}]}"#
    );
    let h: Vec<(String, String)> = p.headers.into_iter().map(|h| (h.name, h.value)).collect();
    assert_eq!(
        h,
        vec![
            ("x-api-key".to_string(), "key".to_string()),
            ("anthropic-version".to_string(), "2023-06-01".to_string()),
            ("content-type".to_string(), "application/json".to_string()),
        ]
    );
    assert_eq!(b.read_reply(200, r#"{"content":[{"type":"text","text":"done"}]}"#).unwrap(), "done");
    assert!(matches!(b.read_reply(200, r#"{"content":[]}"#), Err(LlmError::EmptyResponse)));
    match b.read_reply(429, "slow down") {
        Err(LlmError::Api(m)) => assert_eq!(m, "Anthropic API error 429: slow down"),
        other => panic!("unexpected {:?}", other),
    }
    let o = create_backend(OpenAIBackendConfig::openrouter("k", "m")).unwrap();
    assert_eq!(o.model_name(), "m");
    assert_eq!(o.config.base_url.as_deref(), Some("https://openrouter.ai/api/v1"));
    assert_eq!(o.config.api_key, "k");
    assert_eq!(o.config.temperature, 0);
    assert_eq!(o.config.max_tokens, 4096);
    let d = OpenAIBackendConfig::default();
    assert_eq!(d.model, "gpt-4o-mini");
    assert_eq!(d.base_url, None);
    assert_eq!(create_backend(OpenAIBackendConfig::openai("k", "m")).unwrap().config.base_url, None);
    assert_eq!(
        OpenAIBackendConfig::local("http://l:1", "m").base_url.as_deref(),
        Some("http://l:1")
    );
    assert_eq!(OpenAIBackendConfig::local("http://l:1", "m").api_key, "sk-local");
    assert_eq!(MockBackend.model_name(), "mock");
}

fn take_turn<A: OsintAgent>(
    agent: &mut A,
    field: &mut Field,
    answer: &dyn Fn(&Request) -> Reply,
) -> Result<Vec<String>, AgentError> {
    agent.heartbeat(field);
    let mut step = agent.begin(field);
    loop {
        match step {
            Step::Done(r) => return r,
            Step::Ask(requests) => {
                let replies: Vec<Reply> = requests.iter().map(answer).collect();
                step = agent.proceed(field, replies);
            },
        }
    }
}

#[test]
fn workers_through_their_common_interface() {
    let mut field = Field::new();
    emit(&mut field, OsintPayload::UserQuery { query: "q".into(), priority: 1_000_000 }, "user");
    let answer = |r: &Request| match r {
        Request::Completion { user, .. } => Reply::Completion(format!("better {}", user)),
        Request::Fetch { .. } => Reply::NoPage("offline".into()),
    };
    let mut refiner = RefinerAgent::new(AgentConfig::default().with_id("refiner-1"));
    assert_eq!(OsintAgent::id(&refiner), "refiner-1");
    assert_eq!(OsintAgent::agent_type(&refiner), "refiner");
    assert_eq!(OsintAgent::sense(&refiner, &field).len(), 1);
    let before = field.active_count();
    assert_eq!(take_turn(&mut refiner, &mut field, &answer).unwrap().len(), 1);
    assert_eq!(field.active_count(), before + 2);
    let mut crawler = CrawlerAgent::with_default_tor(AgentConfig::default().with_id("crawler-1"));
    assert_eq!(take_turn(&mut crawler, &mut field, &answer).unwrap().len(), 0);
    let mut extractor = ExtractorAgent::new(AgentConfig::default().with_id("extractor-1"));
    assert!(matches!(take_turn(&mut extractor, &mut field, &answer), Err(AgentError::NoWork)));
    assert!(matches!(extractor.proceed(&mut field, vec![]), Step::Done(Err(AgentError::NoWork))));
    let mut analyst = AnalystAgent::new(AgentConfig::default().with_id("analyst-1"));
    assert!(matches!(take_turn(&mut analyst, &mut field, &answer), Err(AgentError::NotReady(_))));
    let filter = FilterAgent::new(AgentConfig::default());
    let scraper = ScraperAgent::with_default_tor(AgentConfig::default());
    let kinds: Vec<&str> = vec![
        OsintAgent::agent_type(&crawler),
        OsintAgent::agent_type(&extractor),
        OsintAgent::agent_type(&analyst),
        OsintAgent::agent_type(&filter),
        OsintAgent::agent_type(&scraper),
    ];
    assert_eq!(kinds, vec!["crawler", "extractor", "analyst", "filter", "scraper"]);
    assert_eq!(field.sense_by_type(0).heartbeats.len(), 4);
}

#[test]
fn a_missing_or_foreign_reply_fails_the_activation_in_words() {
    let mut field = Field::new();
    let mut agent = RefinerAgent::new(AgentConfig::default().with_id("refiner-1"));
    emit(&mut field, OsintPayload::UserQuery { query: "one".to_string(), priority: 1_000_000 }, "user");
    assert_eq!(asked(agent.start(&field)).len(), 1);
    match done(agent.resume(&mut field, vec![])) {
        Err(AgentError::Llm(m)) => assert_eq!(m, "no reply"),
        other => panic!("unexpected {:?}", other),
    }
    assert_eq!(asked(agent.start(&field)).len(), 1);
    match done(agent.resume(&mut field, vec![Reply::NoPage("offline".to_string())])) {
        Err(AgentError::Llm(m)) => assert_eq!(m, "no completion"),
        other => panic!("unexpected {:?}", other),
    }
    assert_eq!(field.sense_by_type(0).refined_queries.len(), 0);
}

#[test]
fn indices_of_any_size_and_among_any_number_of_results() {
    assert_eq!(parse_indices("99999999999999999999999999999999999999999999, 2", 3), vec![2]);
    assert_eq!(parse_indices("1000000 2000000", 2_000_000), vec![1_000_000, 2_000_000]);
    assert_eq!(parse_indices("18446744073709551615", usize::MAX), vec![usize::MAX]);
    assert_eq!(parse_indices("18446744073709551616", usize::MAX), Vec::<usize>::new());
    assert_eq!(parse_indices("184467440737095516150", usize::MAX), Vec::<usize>::new());
}
