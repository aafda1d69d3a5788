use robin_smesh::agents::blockchain::{
    bitcoin_analysis, detect_risk_indicators, ethereum_analysis, BlockchainAgent, BlockchainConfig,
};
use robin_smesh::agents::enricher::{
    brave_findings, github_findings, EnrichmentAgent, EnrichmentConfig,
};
use robin_smesh::agents::paste::{
    extract_rentry_content, generate_search_slugs, parse_controlc_results,
    parse_justpaste_results, pastebin_results, PasteMonitorAgent, PasteMonitorConfig,
};
use robin_smesh::agents::timing::{
    hour_patterns, isqrt, measure, parse_signed, parse_unsigned, patterns, usable_times,
};
use robin_smesh::agents::traits::{AgentConfig, AgentError, Reply, Request, Step};
use robin_smesh::artifacts::{Artifact, ArtifactType};
use robin_smesh::field::Field;
use robin_smesh::signals::{OsintPayload, Signal};
use std::time::Duration;

fn asked(step: Step) -> Vec<Request> {
    match step {
        Step::Ask(r) => r,
        Step::Done(d) => panic!("expected requests, got {:?}", d),
    }
}

fn done(step: Step) -> Result<Vec<String>, AgentError> {
    match step {
        Step::Done(d) => d,
        Step::Ask(r) => panic!("expected an end, got {} requests", r.len()),
    }
}

fn url_of(r: &Request) -> String {
    match r {
        Request::Fetch { url, .. } => url.clone(),
        other => panic!("unexpected {:?}", other),
    }
}

fn page(body: &str) -> Reply {
    Reply::Page { status: 200, body: body.to_string() }
}

fn extraction(field: &mut Field, artifacts: Vec<Artifact>) {
    field.emit(
        Signal::builder(OsintPayload::ExtractedArtifacts { source_url: "http://a.onion".into(), artifacts })
            .origin("extractor-1")
            .confidence(850_000)
            .build(),
    );
}

#[test]
fn test_detect_chain() {
    let btc = Artifact {
        artifact_type: ArtifactType::Bitcoin,
        value: "1A1zP1eP5QGefi2DMPTfTL5SLmv7DivfNa".to_string(),
        source: None,
        context: None,
        confidence: 1_000_000,
    };
    assert_eq!(BlockchainAgent::detect_chain(&btc), Some("bitcoin"));

    let eth = Artifact {
        artifact_type: ArtifactType::Ethereum,
        value: "0x742d35Cc6634C0532925a3b844Bc9e7595f".to_string(),
        source: None,
        context: None,
        confidence: 1_000_000,
    };
    assert_eq!(BlockchainAgent::detect_chain(&eth), Some("ethereum"));

    let xmr = Artifact {
        artifact_type: ArtifactType::Monero,
        value: "4...".to_string(),
        source: None,
        context: None,
        confidence: 1_000_000,
    };
    assert_eq!(BlockchainAgent::detect_chain(&xmr), None);
}

#[test]
fn test_blockchain_config_default() {
    let config = BlockchainConfig::default();
    assert_eq!(Duration::from_secs(config.request_timeout), Duration::from_secs(30));
    assert_eq!(config.min_tx_for_patterns, 3);
}

#[test]
fn test_should_enrich() {
    let agent = EnrichmentAgent::new(AgentConfig::default().with_id("test"), EnrichmentConfig::default());

    let email = Artifact::new(ArtifactType::Email, "test@example.com".to_string());
    assert!(agent.should_enrich(&email));

    let onion = Artifact::new(ArtifactType::OnionAddress, "abc123.onion".to_string());
    assert!(!agent.should_enrich(&onion));
}

#[test]
fn test_github_query() {
    let agent = EnrichmentAgent::new(AgentConfig::default().with_id("test"), EnrichmentConfig::default());

    let email = Artifact::new(ArtifactType::Email, "hacker@dark.net".to_string());
    let query = agent.github_query(&email);
    assert!(query.is_some());
    assert!(query.unwrap().contains("hacker@dark.net"));
}

#[test]
fn test_brave_query() {
    let agent = EnrichmentAgent::new(AgentConfig::default().with_id("test"), EnrichmentConfig::default());

    let btc = Artifact::new(ArtifactType::Bitcoin, "1A1zP1eP5QGefi2DMPTfTL5SLmv7DivfNa".to_string());
    let query = agent.brave_query(&btc);
    assert!(query.contains("ransomware"));
    assert!(query.contains("bitcoin"));
}

#[test]
fn test_paste_config_default() {
    let config = PasteMonitorConfig::default();
    assert_eq!(config.max_pastes_per_site, 10);
    assert_eq!(config.min_paste_length, 50);
}

#[test]
fn test_generate_search_slugs() {
    let slugs = generate_search_slugs("bitcoin wallet");
    assert!(slugs.contains(&"bitcoin".to_string()));
    assert!(slugs.contains(&"wallet".to_string()));
    assert!(slugs.contains(&"bitcoin-wallet".to_string()));
}

#[test]
fn slugs_in_order() {
    assert_eq!(generate_search_slugs("  Dark  WEB leaks "), vec!["dark", "web", "leaks", "dark-web", "dark_web"]);
    assert_eq!(generate_search_slugs("One"), vec!["one"]);
    assert!(generate_search_slugs(" ").is_empty());
}

#[test]
fn queries_of_the_enricher() {
    let agent = EnrichmentAgent::new(AgentConfig::default().with_id("e"), EnrichmentConfig::default());
    let user = Artifact::new(ArtifactType::Username, "h4x".into());
    assert_eq!(agent.github_query(&user).unwrap(), "\"h4x\" OR author:h4x");
    assert_eq!(agent.brave_query(&user), "\"h4x\" hacker forum profile");
    let url = Artifact::new(ArtifactType::Url, "http://x".into());
    assert!(agent.github_query(&url).is_none());
    assert_eq!(agent.brave_query(&url), "\"http://x\"");
    let mail = Artifact::new(ArtifactType::Email, "a b@c.d".into());
    let request = agent.github_request(&mail).unwrap();
    assert_eq!(url_of(&request), "https://api.github.com/search/code?q=%22a%20b%40c.d%22&per_page=5");
    match request {
        Request::Fetch { headers, through_tor, .. } => {
            assert!(!through_tor);
            assert_eq!(headers.len(), 2);
            assert_eq!(headers[0].name, "Accept");
        },
        other => panic!("unexpected {:?}", other),
    }
    assert!(agent.brave_request(&mail).is_none());
    let keyed = EnrichmentAgent::new(
        AgentConfig::default().with_id("e"),
        EnrichmentConfig {
            github_token: Some("tok".into()),
            brave_api_key: Some("bk".into()),
            max_results_per_artifact: 2,
            enable_github: true,
            enable_brave: true,
        },
    );
    match keyed.github_request(&mail).unwrap() {
        Request::Fetch { headers, .. } => {
            assert_eq!(headers[2].name, "Authorization");
            assert_eq!(headers[2].value, "token tok");
        },
        other => panic!("unexpected {:?}", other),
    }
    match keyed.brave_request(&mail).unwrap() {
        Request::Fetch { url, headers, .. } => {
            assert_eq!(url, "https://api.search.brave.com/res/v1/web/search?q=%22a%20b%40c.d%22%20data%20breach%20leak&count=2");
            assert_eq!(headers[1].name, "X-Subscription-Token");
            assert_eq!(headers[1].value, "bk");
        },
        other => panic!("unexpected {:?}", other),
    }
}

const GITHUB: &str = r#"{"total_count":3,"items":[
 {"name":"a.txt","path":"dir/a.txt","html_url":"https://github.com/o/r/a.txt","repository":{"full_name":"o/r","description":"about"}},
 {"name":"b.txt","path":"b.txt","html_url":"https://github.com/o/s/b.txt","repository":{"full_name":"o/s","description":null}},
 {"name":"c.txt","path":"c.txt","html_url":"https://github.com/o/t/c.txt","repository":{"full_name":"o/t"}}]}"#;

#[test]
fn findings_are_read_from_json() {
    let f = github_findings(GITHUB, 2);
    assert_eq!(f.len(), 2);
    assert_eq!(f[0].finding_type, "github_code");
    assert_eq!(f[0].title, "o/r/a.txt");
    assert_eq!(f[0].url.as_deref(), Some("https://github.com/o/r/a.txt"));
    assert_eq!(f[0].snippet, "Found in dir/a.txt (about)");
    assert_eq!(f[0].relevance, 800_000);
    assert_eq!(f[1].snippet, "Found in b.txt ()");
    assert_eq!(github_findings(GITHUB, 5).len(), 3);
    assert!(github_findings(r#"{"items":[{"name":"a"}]}"#, 5).is_empty());
    assert!(github_findings("not json", 5).is_empty());
    let b = brave_findings(r#"{"web":{"results":[{"title":"T","url":"https://x","description":"D"}]}}"#, 5);
    assert_eq!(b.len(), 1);
    assert_eq!((b[0].finding_type.as_str(), b[0].title.as_str(), b[0].snippet.as_str(), b[0].relevance), ("web_search", "T", "D", 700_000));
    assert!(brave_findings(r#"{"web":{}}"#, 5).is_empty());
}

#[test]
fn enricher_asks_about_artifacts_that_are_worth_it() {
    let mut field = Field::new();
    let mut agent = EnrichmentAgent::new(AgentConfig::default().with_id("enricher-1"), EnrichmentConfig::default());
    assert_eq!(done(agent.start(&field)).unwrap().len(), 0);
    extraction(
        &mut field,
        vec![
            Artifact::new(ArtifactType::Email, "x@y.z".into()),
            Artifact::new(ArtifactType::OnionAddress, "abcdefghijklmnop.onion".into()),
            Artifact::new(ArtifactType::Domain, "evil.io".into()),
        ],
    );
    assert_eq!(agent.sense(&field).len(), 1);
    let requests = asked(agent.start(&field));
    assert_eq!(requests.len(), 2);
    assert!(url_of(&requests[0]).contains("%22x%40y.z%22"));
    assert!(url_of(&requests[1]).contains("%22evil.io%22"));
    let hashes = done(agent.resume(&mut field, vec![Reply::Page { status: 403, body: GITHUB.into() }, page(GITHUB)])).unwrap();
    assert_eq!(hashes.len(), 1);
    let s = field.get(&hashes[0]).unwrap();
    assert_eq!((s.confidence, s.ttl), (700_000, 120_000));
    match &s.payload {
        OsintPayload::EnrichedArtifacts { artifact, source, findings } => {
            assert_eq!(artifact.value, "evil.io");
            assert_eq!(source, "github");
            assert_eq!(findings.len(), 3);
        },
        other => panic!("unexpected {:?}", other),
    }
    assert_eq!(agent.processed_artifacts, vec!["Email:x@y.z".to_string(), "Domain:evil.io".to_string()]);
    assert_eq!(done(agent.start(&field)).unwrap().len(), 0);
    assert!(matches!(done(agent.resume(&mut field, vec![])), Err(AgentError::NoWork)));
}

#[test]
fn numbers_are_read_as_the_standard_library_reads_them() {
    for s in ["0", "7", "+7", "007", "18446744073709551615", "18446744073709551616", "", "+", "-1", "1a", " 1", "٣"] {
        assert_eq!(parse_unsigned(s), s.parse::<u64>().ok(), "{:?}", s);
    }
    for s in ["0", "-0", "+5", "-5", "9223372036854775807", "9223372036854775808", "-9223372036854775808", "-9223372036854775809", "", "-", "--1", "1.5"] {
        assert_eq!(parse_signed(s), s.parse::<i64>().ok(), "{:?}", s);
    }
    assert_eq!(isqrt(0), 0);
    assert_eq!(isqrt(15), 3);
    assert_eq!(isqrt(16), 4);
    assert_eq!(isqrt(1_000_000_000_000), 1_000_000);
    assert_eq!(isqrt((1u128 << 126) - 1), (1u64 << 63) - 1);
}

fn kinds_of(times: &[i64], min_tx: u32) -> Vec<(String, u64, String, Vec<String>)> {
    let raw: Vec<Option<i64>> = times.iter().map(|t| Some(*t)).collect();
    let ts = usable_times(&raw);
    patterns(&measure(&ts), min_tx)
        .into_iter()
        .map(|p| (p.pattern_type, p.confidence, p.description, p.evidence))
        .collect()
}

#[test]
fn regular_steps_are_seen() {
    let found = kinds_of(&[1_000_000, 1_007_200, 1_014_400, 1_021_600, 1_028_800], 3);
    assert_eq!(found.len(), 1);
    assert_eq!(found[0].0, "regular_interval");
    assert_eq!(found[0].1, 1_000_000);
    assert_eq!(found[0].2, "Transactions occur at regular intervals of ~2 hours");
    assert_eq!(found[0].3, vec!["Average interval: 7200 seconds".to_string(), "Standard deviation: 0 seconds".to_string()]);
    // steps 90, 110, 100, 100: mean 100, deviation 7.07
    let near = kinds_of(&[0, 90, 200, 300, 400], 3);
    assert_eq!(near[0].0, "regular_interval");
    assert_eq!(near[0].1, 1_000_000 - 70_710);
    assert_eq!(near[0].2, "Transactions occur at regular intervals of ~1 minutes");
    assert_eq!(near[0].3[1], "Standard deviation: 7 seconds");
    assert_eq!(near[1].0, "burst_activity");
    assert_eq!(near[1].1, 1_000_000);
    assert_eq!(near[1].3, vec!["4 of 4 transactions within 1 hour of each other".to_string()]);
    assert!(kinds_of(&[0, 90, 200, 300, 400], 6).is_empty());
}

#[test]
fn dormancy_and_bursts_are_seen() {
    let day = 86_400;
    let found = kinds_of(&[0, 100, 200, 50 * day, 50 * day + 1_000], 3);
    let kinds: Vec<&str> = found.iter().map(|f| f.0.as_str()).collect();
    assert_eq!(kinds, vec!["burst_activity", "dormant_then_active"]);
    assert_eq!(found[0].1, 750_000);
    assert_eq!(found[0].3, vec!["3 of 4 transactions within 1 hour of each other".to_string()]);
    assert_eq!(found[1].2, "Long dormancy period of 49 days followed by resumed activity");
    assert_eq!(found[1].3, vec!["Maximum gap: 49 days".to_string(), "Total wallet age: 50 days".to_string()]);
    let life = 50 * day + 1_000;
    assert_eq!(kinds_of(&[0, 100, 200, 50 * day, 50 * day + 10_000], 3).len(), 1);
    assert_eq!(found[1].1, ((50 * day - 200) as u64) * 1_000_000 / life as u64);
    assert!(kinds_of(&[], 0).is_empty());
    assert!(kinds_of(&[5], 1).is_empty());
    // times that count for nothing
    let raw = vec![Some(-5), None, Some(10), Some(i64::MAX), Some(20)];
    assert_eq!(usable_times(&raw), vec![10, 20]);
}

#[test]
fn time_zone_is_seen() {
    let day = 86_400;
    let times: Vec<i64> = vec![9 * 3600, day + 10 * 3600 + 5, 2 * day + 9 * 3600 + 59, 3 * day + 13 * 3600, 4 * day + 22 * 3600];
    let found = hour_patterns(&times, 3);
    assert_eq!(found.len(), 1);
    assert_eq!(found[0].pattern_type, "timezone_indicator");
    assert_eq!(found[0].description, "Activity concentrated around 9:00 UTC (possible operator timezone)");
    assert_eq!(found[0].confidence, 800_000);
    assert_eq!(
        found[0].evidence,
        vec!["Peak activity hour: 9:00 UTC".to_string(), "80% of transactions within \u{b1}4 hours of peak".to_string()]
    );
    assert!(hour_patterns(&times, 6).is_empty());
    let spread: Vec<i64> = (0..24).map(|h| h * 3600).collect();
    assert!(hour_patterns(&spread, 3).is_empty());
}

#[test]
fn time_zone_window_goes_round_midnight_both_ways() {
    let day = 86_400;
    // peak at one o'clock; the hours before midnight are near it
    let early: Vec<i64> = vec![3600, day + 3600, 2 * day + 23 * 3600, 3 * day + 22 * 3600, 4 * day];
    let found = hour_patterns(&early, 3);
    assert_eq!(found.len(), 1);
    assert_eq!(found[0].description, "Activity concentrated around 1:00 UTC (possible operator timezone)");
    assert_eq!(found[0].confidence, 1_000_000);
    // peak at eleven at night; the hours after midnight are near it
    let late: Vec<i64> = vec![23 * 3600, day + 23 * 3600, 2 * day + 3600, 3 * day + 2 * 3600, 4 * day + 3 * 3600];
    let found = hour_patterns(&late, 3);
    assert_eq!(found.len(), 1);
    assert_eq!(found[0].description, "Activity concentrated around 23:00 UTC (possible operator timezone)");
    assert_eq!(found[0].confidence, 1_000_000);
    // five hours off is far, either way
    let far: Vec<i64> = vec![3600, day + 3600, 2 * day + 20 * 3600, 3 * day + 6 * 3600, 4 * day + 12 * 3600];
    assert!(hour_patterns(&far, 3).is_empty());
}

#[test]
fn risks_of_a_bitcoin_address() {
    assert_eq!(
        detect_risk_indicators(1_234_567_890, 101, Some(1_000), 1_000 + 604_799),
        vec!["High volume: 12.35 BTC total received".to_string(), "High transaction count: 101".to_string(), "Active within last 7 days".to_string()]
    );
    assert!(detect_risk_indicators(1_000_000_000, 100, Some(1_000), 1_000 + 604_800).is_empty());
    assert!(detect_risk_indicators(0, 0, None, 0).is_empty());
}

const BLOCKSTREAM: &str = r#"{"address":"1x","chain_stats":{"funded_txo_count":3,"funded_txo_sum":500,"spent_txo_count":1,"spent_txo_sum":200,"tx_count":4},"mempool_stats":{"funded_txo_count":0,"funded_txo_sum":50,"spent_txo_count":0,"spent_txo_sum":400,"tx_count":1}}"#;

#[test]
fn bitcoin_analysis_from_replies() {
    let txs = r#"[{"txid":"c","status":{"confirmed":true,"block_time":300}},{"txid":"b","status":{"confirmed":false}},{"txid":"a","status":{"confirmed":true,"block_time":100}}]"#;
    let w = bitcoin_analysis(&vec![page(BLOCKSTREAM), page(txs)], 0, 3, 1_000_000_000).unwrap();
    assert_eq!(w.tx_count, 5);
    assert_eq!(w.total_received, 550);
    assert_eq!(w.total_sent, 600);
    assert_eq!(w.balance, 0);
    assert_eq!(w.first_seen, Some(100));
    assert_eq!(w.last_seen, Some(300));
    assert!(w.patterns.is_empty());
    assert!(w.risk_indicators.is_empty());
    let w = bitcoin_analysis(&vec![page(BLOCKSTREAM), Reply::NoPage("x".into())], 0, 3, 0).unwrap();
    assert_eq!((w.first_seen, w.last_seen), (None, None));
    assert!(matches!(bitcoin_analysis(&vec![Reply::NoPage("x".into())], 0, 3, 0), Err(AgentError::Network(_))));
    assert!(matches!(bitcoin_analysis(&vec![Reply::Page { status: 404, body: BLOCKSTREAM.into() }], 0, 3, 0), Err(AgentError::Network(_))));
    assert!(matches!(bitcoin_analysis(&vec![page("{}")], 0, 3, 0), Err(AgentError::Parse(_))));
    assert!(matches!(bitcoin_analysis(&vec![], 0, 3, 0), Err(AgentError::Network(_))));
}

#[test]
fn ethereum_analysis_from_replies() {
    let balance = r#"{"status":"1","message":"OK","result":"12345"}"#;
    let txs = r#"{"status":"1","result":[
      {"timeStamp":"1000","to":"0xABCDEF","value":"10","input":"0x","isError":"0"},
      {"timeStamp":"2000","to":"0xother","value":"7","input":"0xa9059cbb","isError":"1"},
      {"timeStamp":"3000","to":null,"value":"x","input":"0x60806040"}]}"#;
    let w = ethereum_analysis("0xabcdef", &vec![page(balance), page(txs)], 0, 3).unwrap();
    assert_eq!(w.balance, 12345);
    assert_eq!(w.tx_count, 3);
    assert_eq!(w.first_seen, Some(1000));
    assert_eq!(w.last_seen, Some(3000));
    assert_eq!(w.total_received, 10);
    assert_eq!(w.total_sent, 7);
    assert_eq!(w.risk_indicators, vec!["Heavy smart contract usage: 66% of transactions".to_string()]);
    assert_eq!(w.patterns.len(), 1);
    assert_eq!(w.patterns[0].pattern_type, "timezone_indicator");
    let w = ethereum_analysis("0xabcdef", &vec![page(r#"{"status":"0","result":"none"}"#)], 0, 3).unwrap();
    assert_eq!((w.balance, w.tx_count, w.first_seen), (0, 0, None));
    assert!(matches!(ethereum_analysis("a", &vec![page(r#"{"status":"1"}"#)], 0, 3), Err(AgentError::Parse(_))));
    assert!(matches!(ethereum_analysis("a", &vec![Reply::NoPage("x".into())], 0, 3), Err(AgentError::Network(_))));
}

#[test]
fn blockchain_analyst_looks_up_coin_addresses() {
    let mut field = Field::new();
    let mut agent = BlockchainAgent::new(
        AgentConfig::default().with_id("blockchain-1"),
        BlockchainConfig { etherscan_api_key: Some("K".into()), request_timeout: 30, min_tx_for_patterns: 3 },
    );
    extraction(
        &mut field,
        vec![
            Artifact::new(ArtifactType::Bitcoin, "1abc".into()),
            Artifact::new(ArtifactType::Monero, "4xyz".into()),
            Artifact::new(ArtifactType::Ethereum, "0xdef".into()),
        ],
    );
    let requests = asked(agent.start(&field));
    let urls: Vec<String> = requests.iter().map(url_of).collect();
    assert_eq!(
        urls,
        vec![
            "https://blockstream.info/api/address/1abc".to_string(),
            "https://blockstream.info/api/address/1abc/txs".to_string(),
            "https://api.etherscan.io/api?module=account&action=balance&address=0xdef&tag=latest&apikey=K".to_string(),
            "https://api.etherscan.io/api?module=account&action=txlist&address=0xdef&startblock=0&endblock=99999999&sort=asc&apikey=K".to_string(),
        ]
    );
    let hashes = done(agent.resume(
        &mut field,
        vec![page(BLOCKSTREAM), page("[]"), Reply::NoPage("down".into()), page("{}")],
    ))
    .unwrap();
    assert_eq!(hashes.len(), 1);
    let s = field.get(&hashes[0]).unwrap();
    assert_eq!((s.confidence, s.ttl), (800_000, 120_000));
    match &s.payload {
        OsintPayload::BlockchainAnalysis { address, chain, analysis } => {
            assert_eq!(address, "1abc");
            assert_eq!(chain, "bitcoin");
            assert_eq!(analysis.tx_count, 5);
        },
        other => panic!("unexpected {:?}", other),
    }
    assert_eq!(agent.processed_addresses.len(), 2);
    assert_eq!(done(agent.start(&field)).unwrap().len(), 0);
}

#[test]
fn paste_sites_are_read() {
    let p = pastebin_results(r#"{"data":[{"id":"AbC","title":"t","content":"body","time":"2024","author":null},{"id":"DeF"}]}"#, 10);
    assert_eq!(p.len(), 2);
    assert_eq!((p[0].url.as_str(), p[0].site.as_str(), p[0].content.as_str()), ("https://pastebin.com/AbC", "pastebin", "body"));
    assert_eq!(p[0].title.as_deref(), Some("t"));
    assert_eq!(p[0].created_at.as_deref(), Some("2024"));
    assert_eq!(p[0].author, None);
    assert_eq!(p[1].content, "");
    assert!(pastebin_results(r#"{"data":[{"title":"no id"}]}"#, 10).is_empty());
    assert!(pastebin_results("{}", 10).is_empty());
    assert_eq!(pastebin_results(r#"{"data":[{"id":"1"},{"id":"2"}]}"#, 1).len(), 1);
    let c = parse_controlc_results(r#"<html><body><a class="paste-link" href="/abc">First  paste</a><a class="paste-link">none</a><a class="paste-link" href="https://controlc.com/x"></a><a href="/no">other</a></body></html>"#, 10);
    assert_eq!(c.len(), 2);
    assert_eq!((c[0].url.as_str(), c[0].title.as_deref(), c[0].site.as_str()), ("https://controlc.com/abc", Some("First  paste"), "controlc"));
    assert_eq!((c[1].url.as_str(), c[1].title.as_deref()), ("https://controlc.com/x", None));
    let j = parse_justpaste_results(r#"<div class="result-item"><a href="/one">One</a></div><div class="result-item"><a href="/two">Two</a></div>"#, 1);
    assert_eq!(j.len(), 1);
    assert_eq!(j[0].url, "https://justpaste.it/one");
    assert_eq!(extract_rentry_content(r#"<div class="markdown-body"><p>a</p><p>b</p></div>"#).as_deref(), Some("a b"));
    assert_eq!(extract_rentry_content("<p>none</p>"), None);
}

#[test]
fn paste_monitor_searches_then_fetches() {
    let mut field = Field::new();
    let mut agent = PasteMonitorAgent::new(AgentConfig::default().with_id("paste-monitor-1"), PasteMonitorConfig::default());
    assert!(matches!(done(agent.start(&field)), Err(AgentError::NoWork)));
    field.emit(
        Signal::builder(OsintPayload::RefinedQuery { original: "o".into(), refined: "leak dump".into(), confidence: 900_000 })
            .origin("refiner-1")
            .build(),
    );
    assert_eq!(agent.sense(&field).len(), 1);
    let urls: Vec<String> = asked(agent.start(&field)).iter().map(url_of).collect();
    assert_eq!(
        urls,
        vec![
            "https://psbdmp.ws/api/v3/search/leak%20dump".to_string(),
            "https://rentry.co/leak".to_string(),
            "https://rentry.co/dump".to_string(),
            "https://rentry.co/leak-dump".to_string(),
            "https://rentry.co/leak_dump".to_string(),
            "https://dpaste.org/api/?format=json".to_string(),
            "https://controlc.com/search?q=leak%20dump".to_string(),
            "https://justpaste.it/search?q=leak%20dump".to_string(),
        ]
    );
    let long = "z".repeat(60);
    let replies = vec![
        page(r#"{"data":[{"id":"Xa1","content":"has text"},{"id":"Xb2"}]}"#),
        page(&format!(r#"<div class="markdown-body">{}</div>"#, long)),
        Reply::Page { status: 404, body: format!(r#"<div class="markdown-body">{}</div>"#, long) },
        page(r#"<div class="markdown-body">short</div>"#),
        Reply::NoPage("x".into()),
        page(r#"[{"id":"D1","created":"2024-01-01"}]"#),
        page(r#"<a class="paste-link" href="/c1">C one</a>"#),
        Reply::NoPage("x".into()),
    ];
    let second: Vec<String> = asked(agent.resume(&mut field, replies)).iter().map(url_of).collect();
    assert_eq!(
        second,
        vec![
            "https://pastebin.com/Xb2/raw".to_string(),
            "https://dpaste.org/D1/raw".to_string(),
            "https://controlc.com/c1/raw".to_string(),
        ]
    );
    let hashes = done(agent.resume(&mut field, vec![page("tiny"), page(&long), Reply::NoPage("x".into())])).unwrap();
    assert_eq!(hashes.len(), 3);
    let sites: Vec<(String, String, usize)> = hashes
        .iter()
        .map(|h| match &field.get(h).unwrap().payload {
            OsintPayload::PasteContent { site, url, content, .. } => (site.clone(), url.clone(), content.len()),
            other => panic!("unexpected {:?}", other),
        })
        .collect();
    assert_eq!(
        sites,
        vec![
            ("pastebin".to_string(), "https://pastebin.com/Xa1".to_string(), 8),
            ("rentry".to_string(), "https://rentry.co/leak".to_string(), 60),
            ("dpaste".to_string(), "https://dpaste.org/D1".to_string(), 60),
        ]
    );
    let s = field.get(&hashes[2]).unwrap();
    assert_eq!((s.confidence, s.ttl), (700_000, 300_000));
    assert!(matches!(done(agent.start(&field)), Err(AgentError::NoWork)));
    assert!(matches!(done(agent.resume(&mut field, vec![])), Err(AgentError::NoWork)));
    agent.heartbeat(&mut field);
    assert_eq!(field.sense_by_type(0).heartbeats[0].ttl, 30_000);
}

#[test]
fn paste_monitor_with_nothing_found_has_no_work() {
    let mut field = Field::new();
    let mut agent = PasteMonitorAgent::new(AgentConfig::default().with_id("p"), PasteMonitorConfig::default());
    field.emit(
        Signal::builder(OsintPayload::RefinedQuery { original: "o".into(), refined: "x".into(), confidence: 900_000 })
            .origin("refiner-1")
            .build(),
    );
    let requests = asked(agent.start(&field));
    assert_eq!(requests.len(), 5);
    let replies: Vec<Reply> = requests.iter().map(|_| Reply::NoPage("offline".into())).collect();
    assert!(matches!(done(agent.resume(&mut field, replies)), Err(AgentError::NoWork)));
    assert_eq!(field.sense_by_type(0).paste_contents.len(), 0);
}

fn failure_of(r: Result<robin_smesh::signals::WalletAnalysis, AgentError>) -> String {
    match r {
        Err(e) => e.message(),
        Ok(_) => panic!("an analysis was not expected"),
    }
}

#[test]
fn lookups_fail_in_words() {
    assert_eq!(
        failure_of(bitcoin_analysis(&vec![], 0, 3, 0)),
        "Network error: Blockstream API error: no reply"
    );
    assert_eq!(
        failure_of(bitcoin_analysis(&vec![Reply::NoPage("timed out".into())], 0, 3, 0)),
        "Network error: Blockstream API error: timed out"
    );
    assert_eq!(
        failure_of(bitcoin_analysis(&vec![Reply::Completion("x".into())], 0, 3, 0)),
        "Network error: Blockstream API error: no page"
    );
    assert_eq!(
        failure_of(bitcoin_analysis(&vec![Reply::Page { status: 404, body: "{}".into() }], 0, 3, 0)),
        "Network error: Blockstream returned status: 404"
    );
    assert_eq!(
        failure_of(bitcoin_analysis(&vec![page("{}")], 0, 3, 0)),
        "Parse error: Failed to parse Blockstream response"
    );
    assert_eq!(
        failure_of(ethereum_analysis("0xabcdef", &vec![], 0, 3)),
        "Network error: Etherscan balance error: no reply"
    );
    assert_eq!(
        failure_of(ethereum_analysis("0xabcdef", &vec![Reply::NoPage("refused".into())], 0, 3)),
        "Network error: Etherscan balance error: refused"
    );
    assert_eq!(
        failure_of(ethereum_analysis("0xabcdef", &vec![page(r#"{"status":"1"}"#)], 0, 3)),
        "Parse error: Failed to parse Etherscan balance"
    );
}

#[test]
fn settings_take_the_keys_of_the_environment() {
    let b = BlockchainConfig::with_key(Some("ek".to_string()));
    assert_eq!(b.etherscan_api_key.as_deref(), Some("ek"));
    assert_eq!((b.request_timeout, b.min_tx_for_patterns), (30, 3));
    assert_eq!(BlockchainConfig::with_key(None).etherscan_api_key, None);
    let e = EnrichmentConfig::with_keys(Some("gt".to_string()), None);
    assert_eq!(e.github_token.as_deref(), Some("gt"));
    assert_eq!(e.brave_api_key, None);
    assert_eq!(e.max_results_per_artifact, 5);
    assert!(e.enable_github && e.enable_brave);
    let (_, txs) = BlockchainAgent::urls("0xabc", robin_smesh::agents::blockchain::Chain::Ethereum, "ek");
    assert!(txs.contains("apikey=ek"), "{}", txs);
}
