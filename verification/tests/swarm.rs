use robin_smesh::agents::traits::{LlmError, Reply, Request};
use robin_smesh::signals::OsintPayload;
use robin_smesh::swarm::{Action, Swarm, SwarmConfig};
use robin_smesh::tor::proxy::TorConfig;

fn config() -> SwarmConfig {
    SwarmConfig {
        tor_config: TorConfig::default(),
        tick_interval_ms: 500,
        max_runtime_secs: 300,
        num_crawlers: 2,
        num_scrapers: 3,
        use_specialists: false,
        enable_enrichment: false,
        enable_blockchain: false,
        enable_pastes: false,
        ..SwarmConfig::default()
    }
}

#[test]
fn test_swarm_creation() {
    let swarm = Swarm::new(config());
    assert!(swarm.agent_count() >= 5);
}

#[test]
fn test_submit_query() {
    let mut swarm = Swarm::new(config());
    let hash = swarm.submit_query("ransomware payments", 800_000);
    assert!(!hash.is_empty());
    assert_eq!(swarm.field().active_count(), 1);
}

/// Performs what the swarm asks for until it waits or finishes.
fn turn(swarm: &mut Swarm, elapsed_ms: u64, answer: &dyn Fn(&Request) -> Reply) -> Option<Option<String>> {
    let mut action = swarm.on_tick(elapsed_ms);
    loop {
        match action {
            Action::Wait => return None,
            Action::Finish(r) => return Some(r),
            Action::Perform(requests) => {
                let replies: Vec<Reply> = requests.iter().map(answer).collect();
                action = swarm.on_replies(replies);
            },
        }
    }
}

fn echo(r: &Request) -> Reply {
    match r {
        Request::Completion { user, .. } => Reply::Completion(format!("refined: {}", user)),
        Request::Fetch { .. } => Reply::NoPage("offline".to_string()),
    }
}

fn canned(r: &Request) -> Reply {
    match r {
        Request::Completion { system, .. } => {
            if system.contains("Refine the provided search query") {
                Reply::Completion("ransomware payments bitcoin".to_string())
            } else if system.contains("Top 20") {
                Reply::Completion("1, 2, 3".to_string())
            } else {
                Reply::Completion("# Findings\nAll is lost.".to_string())
            }
        },
        Request::Fetch { url, .. } => {
            if url.contains("q=") || url.contains("query=") || url.contains("search=") || url.contains("?s=") {
                Reply::Page {
                    status: 200,
                    body: r#"<html><body>
                        <a href="http://marketaaaabbbbccccdddd.onion/one">Market One</a>
                        <a href="http://forumaaaabbbbccccdddd.onion/two">Forum Two</a>
                        <a href="http://leaksaaaabbbbccccdddd.onion/three">Leaks Three</a>
                    </body></html>"#
                        .to_string(),
                }
            } else {
                Reply::Page {
                    status: 200,
                    body: format!(
                        "<html><head><title>Page</title></head><body><p>Wallet 1A1zP1eP5QGefi2DMPTfTL5SLmv7DivfNa seen at {}</p></body></html>",
                        url
                    ),
                }
            }
        },
    }
}

fn never(r: &Request) -> Reply {
    match r {
        Request::Completion { .. } => Reply::NoCompletion(LlmError::Api("no answer".to_string())),
        Request::Fetch { .. } => Reply::NoPage("offline".to_string()),
    }
}

#[test]
fn roster_follows_the_configuration() {
    assert_eq!(Swarm::new(config()).agent_count(), 9);
    let mut all = config();
    all.num_crawlers = 0;
    all.num_scrapers = 1;
    all.enable_enrichment = true;
    all.enable_blockchain = true;
    all.enable_pastes = true;
    all.use_specialists = true;
    assert_eq!(Swarm::new(all).agent_count(), 8);
    let d = SwarmConfig::default();
    assert_eq!((d.tick_interval_ms, d.max_runtime_secs, d.num_crawlers, d.num_scrapers), (500, 300, 2, 3));
}

#[test]
fn query_is_refined_within_five_ticks() {
    let mut swarm = Swarm::new(config());
    swarm.submit_query("ransomware payments", 800_000);
    let start = swarm.field().now();
    for i in 1..=5u64 {
        assert_eq!(turn(&mut swarm, i * 500, &echo), None);
        assert_eq!(swarm.field().now(), start + (i as i64) * 500);
    }
    let by = swarm.field().sense_by_type(0);
    assert_eq!(by.user_queries.len(), 1);
    assert_eq!(by.user_queries[0].ttl, 300_000);
    assert_eq!(by.user_queries[0].origin_agent_id, "user");
    assert!(by.refined_queries.iter().any(|s| match &s.payload {
        OsintPayload::RefinedQuery { original, .. } => original == "ransomware payments",
        _ => false,
    }));
    assert_eq!(by.refined_queries.len(), 1);
    assert_eq!(by.refined_queries[0].confidence, 800_000);
    assert!(!by.heartbeats.is_empty());
    assert_eq!(by.summaries.len(), 0);
}

#[test]
fn investigation_ends_with_one_summary() {
    let mut swarm = Swarm::new(config());
    swarm.submit_query("ransomware payments", 1_000_000);
    let mut report = None;
    for i in 1..=10u64 {
        if let Some(r) = turn(&mut swarm, i * 500, &canned) {
            report = r;
            break;
        }
    }
    assert_eq!(report.as_deref(), Some("# Findings\nAll is lost."));
    let by = swarm.field().sense_by_type(0);
    assert_eq!(by.summaries.len(), 1);
    assert!(by.scraped_content.len() >= 3);
    assert!(!by.extracted_artifacts.is_empty());
    match &by.summaries[0].payload {
        OsintPayload::Summary { source_count, artifact_count, .. } => {
            assert!(*source_count >= 3);
            assert!(*artifact_count >= 1);
        },
        other => panic!("unexpected {:?}", other),
    }
    for i in 11..=20u64 {
        let r = turn(&mut swarm, i * 500, &canned);
        assert_eq!(r, Some(Some("# Findings\nAll is lost.".to_string())));
        assert_eq!(swarm.field().sense_by_type(0).summaries.len(), 1);
    }
    assert_eq!(swarm.summary().as_deref(), Some("# Findings\nAll is lost."));
}

#[test]
fn time_runs_out_without_a_summary() {
    let mut short = config();
    short.max_runtime_secs = 1;
    let mut swarm = Swarm::new(short);
    swarm.submit_query("ransomware payments", 800_000);
    assert!(!swarm.timed_out(1_000));
    assert!(swarm.timed_out(1_001));
    assert_eq!(turn(&mut swarm, 500, &never), None);
    assert_eq!(turn(&mut swarm, 1_000, &never), None);
    let before = swarm.field().now();
    assert_eq!(turn(&mut swarm, 1_001, &never), Some(None));
    assert_eq!(swarm.field().now(), before);
    assert_eq!(swarm.summary(), None);
    let stats = swarm.stats();
    assert!(stats.active_signals >= 1);
    let mut unlimited = config();
    unlimited.max_runtime_secs = 0;
    assert!(!Swarm::new(unlimited).timed_out(u64::MAX));
}

#[test]
fn every_worker_beats_under_its_name_in_roster_order() {
    let mut all = config();
    all.enable_enrichment = true;
    all.enable_blockchain = true;
    all.enable_pastes = true;
    let mut swarm = Swarm::new(all);
    assert_eq!(turn(&mut swarm, 500, &never), None);
    let by = swarm.field().sense_by_type(0);
    let beats: Vec<(String, String)> = by
        .heartbeats
        .iter()
        .map(|s| match &s.payload {
            OsintPayload::Heartbeat { agent_id, .. } => (agent_id.clone(), s.origin_agent_id.clone()),
            other => panic!("unexpected {:?}", other),
        })
        .collect();
    let names = [
        "refiner-1",
        "crawler-1",
        "crawler-2",
        "filter-1",
        "scraper-1",
        "scraper-2",
        "scraper-3",
        "extractor-1",
        "enricher-1",
        "blockchain-1",
        "paste-monitor-1",
        "analyst-1",
    ];
    assert_eq!(beats.len(), names.len());
    for (beat, name) in beats.iter().zip(names.iter()) {
        assert_eq!(beat.0, *name);
        assert_eq!(beat.1, *name);
    }
}

#[test]
fn the_driver_is_told_how_long_and_how_many() {
    let mut c = config();
    c.max_runtime_secs = 2;
    let mut swarm = Swarm::new(c);
    assert_eq!(swarm.time_left(0), Some(2000));
    assert_eq!(swarm.time_left(1999), Some(1));
    assert_eq!(swarm.time_left(2000), Some(0));
    assert_eq!(swarm.time_left(u64::MAX), Some(0));
    // no turn is open before the first tick
    assert_eq!(swarm.max_in_flight(), 1);
    swarm.submit_query("ransomware payments", 800_000);
    match swarm.on_tick(500) {
        Action::Perform(requests) => assert_eq!(requests.len(), 1),
        other => panic!("unexpected {:?}", other),
    }
    // the refiner's turn is open: a worker of the swarm has three in flight
    assert_eq!(swarm.max_in_flight(), 3);
    let mut forever = config();
    forever.max_runtime_secs = 0;
    let unlimited = Swarm::new(forever);
    assert_eq!(unlimited.time_left(0), None);
    assert_eq!(unlimited.time_left(u64::MAX), None);
    assert!(!unlimited.timed_out(u64::MAX));
    let mut long = config();
    long.max_runtime_secs = u64::MAX;
    assert_eq!(Swarm::new(long).time_left(5), Some(u64::MAX));
}
