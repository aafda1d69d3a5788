use robin_smesh::session::{
    exit_code, log_level, mode, provider_of, reachable, roster_line, summary_file_name, LogLevel,
    Provider,
};

#[test]
fn openrouter_goes_before_openai_and_anthropic_is_the_default() {
    assert_eq!(provider_of(false, false), Provider::Anthropic);
    assert_eq!(provider_of(true, false), Provider::OpenAI);
    assert_eq!(provider_of(false, true), Provider::OpenRouter);
    assert_eq!(provider_of(true, true), Provider::OpenRouter);
    assert_eq!(Provider::Anthropic.name(), "Anthropic");
    assert_eq!(Provider::OpenAI.name(), "OpenAI");
    assert_eq!(Provider::OpenRouter.name(), "OpenRouter");
}

#[test]
fn each_service_takes_its_own_key() {
    let a = Some("ka".to_string());
    let o = Some("ko".to_string());
    let r = Some("kr".to_string());
    let none: Option<String> = None;
    assert_eq!(Provider::Anthropic.key(&a, &o, &r).unwrap(), "ka");
    assert_eq!(Provider::OpenAI.key(&a, &o, &r).unwrap(), "ko");
    assert_eq!(Provider::OpenRouter.key(&a, &o, &r).unwrap(), "kr");
    assert_eq!(
        Provider::Anthropic.key(&none, &o, &r).unwrap_err(),
        "Anthropic API key required. Set ANTHROPIC_API_KEY or use --anthropic-key"
    );
    assert_eq!(
        Provider::OpenAI.key(&a, &none, &r).unwrap_err(),
        "OpenAI API key required. Set OPENAI_API_KEY or use --api-key"
    );
    assert_eq!(
        Provider::OpenRouter.key(&a, &o, &none).unwrap_err(),
        "OpenRouter API key required. Set OPENROUTER_API_KEY or use --openrouter-key"
    );
}

#[test]
fn the_run_is_announced() {
    assert_eq!(
        roster_line(2, 3, false, false, false, false),
        "Agents: 1 refiner, 2 crawlers, 1 filter, 3 scrapers, 1 extractor, 1 analyst (single)"
    );
    assert_eq!(
        roster_line(1, 10, true, true, true, true),
        "Agents: 1 refiner, 1 crawlers, 1 filter, 10 scrapers, 1 extractor, 1 enricher, 1 blockchain, 1 paste-monitor, 1 analyst (multi-specialist (6 experts))"
    );
    assert_eq!(
        roster_line(0, 0, false, true, false, false),
        "Agents: 1 refiner, 0 crawlers, 1 filter, 0 scrapers, 1 extractor, 1 blockchain, 1 analyst (single)"
    );
    assert_eq!(mode(true), "enabled");
    assert_eq!(mode(false), "disabled");
}

#[test]
fn successes_and_redirections_show_that_tor_is_reached() {
    assert!(reachable(200));
    assert!(reachable(204));
    assert!(reachable(301));
    assert!(reachable(399));
    assert!(!reachable(199));
    assert!(!reachable(400));
    assert!(!reachable(404));
    assert!(!reachable(503));
}

#[test]
fn the_report_has_its_file_and_the_run_its_code() {
    assert_eq!(summary_file_name("2024-01-31_23-59-59"), "summary_2024-01-31_23-59-59.md");
    assert_eq!(exit_code(&Some("# Report".to_string())), 0);
    assert_eq!(exit_code(&None), 1);
}

#[test]
fn verbosity_sets_what_is_logged() {
    assert_eq!(log_level(0), LogLevel::Error);
    assert_eq!(log_level(1), LogLevel::Info);
    assert_eq!(log_level(2), LogLevel::Debug);
    assert_eq!(log_level(3), LogLevel::Trace);
    assert_eq!(log_level(255), LogLevel::Trace);
}
