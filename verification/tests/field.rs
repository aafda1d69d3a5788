use robin_smesh::field::Field;
use robin_smesh::signals::{DecayFunction, OsintPayload, Signal};

fn query(text: &str) -> OsintPayload {
    OsintPayload::UserQuery { query: text.to_string(), priority: 1_000_000 }
}

#[test]
fn test_field_emit_and_sense() {
    let mut field = Field::new();

    let signal = Signal::builder(query("test")).origin("agent-1").build();

    let hash = field.emit(signal);
    assert!(!hash.is_empty());
    assert_eq!(field.active_count(), 1);

    let sensed = field.sense(100_000);
    assert_eq!(sensed.len(), 1);
}

#[test]
fn test_field_reinforcement() {
    let mut field = Field::new();

    let signal1 = Signal::builder(query("test")).origin("agent-1").build();
    let signal2 = Signal::builder(query("test")).origin("agent-1").build();

    field.emit(signal1);
    field.emit(signal2);

    assert_eq!(field.active_count(), 1);
    let live = field.sense(0);
    let signal = live[0];
    assert_eq!(signal.reinforcement_count, 1);
}

#[test]
fn test_field_expiration() {
    let mut field = Field::new();

    let signal = Signal::builder(query("test")).ttl(1_000).build();

    field.emit(signal);
    assert_eq!(field.active_count(), 1);

    let result = field.tick(2_000);
    assert_eq!(result.expired_count, 1);
    assert_eq!(field.active_count(), 0);
}

#[test]
fn tick_advances_time_by_exactly_dt() {
    let mut field = Field::new_at(1_000);
    assert_eq!(field.now(), 1_000);
    field.tick(500);
    assert_eq!(field.now(), 1_500);
    field.tick(0);
    assert_eq!(field.now(), 1_500);
    field.tick(1);
    assert_eq!(field.now(), 1_501);
}

#[test]
fn zero_ttl_expires_on_any_positive_tick() {
    let mut field = Field::new_at(5_000);
    field.emit(Signal::builder(query("gone")).ttl(0).build_at(5_000, "a".to_string()));
    field.emit(Signal::builder(query("stays")).ttl(10_000).build_at(5_000, "b".to_string()));
    let r = field.tick(1);
    assert_eq!(r.expired_count, 1);
    assert_eq!(r.active_count, 1);
    assert_eq!(field.stats().history_size, 1);
}

#[test]
fn no_live_signal_is_expired_after_a_tick() {
    let mut field = Field::new_at(0);
    for (i, ttl) in [1_000u64, 5_000, 20_000, 60_000].iter().enumerate() {
        field.emit(Signal::builder(query(&format!("q{}", i))).ttl(*ttl).decay_rate(200_000).build_at(0, format!("{}", i)));
    }
    for _ in 0..40 {
        field.tick(1_000);
        let now = field.now();
        for s in field.sense(0) {
            assert!(!s.is_expired(now));
            assert!(s.compute_intensity(now) >= 10_000);
            assert!((now - s.created_at) < s.ttl as i64);
            assert_eq!(s.current_intensity, s.compute_intensity(now));
        }
    }
    // rate 0.2: below 0.01 after about 23 s
    assert_eq!(field.active_count(), 0);
    assert_eq!(field.stats().history_size, 4);
}

#[test]
fn same_content_twice_is_one_signal_reinforced_once() {
    let mut field = Field::new_at(0);
    let payload = || OsintPayload::RefinedQuery {
        original: "a".to_string(),
        refined: "b".to_string(),
        confidence: 900_000,
    };
    let h1 = field.emit(Signal::builder(payload()).origin("refiner-1").confidence(800_000).build_at(0, "1".to_string()));
    let h2 = field.emit(Signal::builder(payload()).origin("refiner-1").confidence(800_000).build_at(0, "2".to_string()));
    let h3 = field.emit(Signal::builder(payload()).origin("refiner-1").confidence(800_000).build_at(0, "3".to_string()));
    assert_eq!(h1, h2);
    assert_eq!(h1, h3);
    assert_eq!(field.active_count(), 1);
    let s = field.get(&h1).unwrap();
    assert_eq!(s.id, "1");
    assert_eq!(s.reinforcement_count, 1);
    assert_eq!(s.reinforced_by, vec!["refiner-1".to_string()]);
    assert!(s.confidence >= 800_000);
    assert!(s.confidence - 800_000 <= 66_667);
    assert_eq!(field.stats().total_reinforcements, 1);
}

#[test]
fn reinforce_by_key() {
    let mut field = Field::new_at(0);
    let h = field.emit(Signal::builder(query("x")).origin("a").confidence(100_000).build_at(0, "1".to_string()));
    assert!(field.reinforce(&h, "b"));
    assert!(field.reinforce(&h, "c"));
    assert!(field.reinforce(&h, "b"));
    assert!(!field.reinforce("nothere", "b"));
    assert_eq!(field.get(&h).unwrap().reinforcement_count, 2);
    assert!(field.get("nothere").is_none());
}

#[test]
fn sense_compares_effective_intensity() {
    let mut field = Field::new_at(0);
    field.emit(Signal::builder(query("weak")).confidence(50_000).decay_function(DecayFunction::Step).build_at(0, "1".to_string()));
    field.emit(Signal::builder(query("strong")).confidence(900_000).decay_function(DecayFunction::Step).build_at(0, "2".to_string()));
    assert_eq!(field.sense(0).len(), 2);
    assert_eq!(field.sense(100_000).len(), 1);
    assert_eq!(field.sense(900_000).len(), 1);
    assert_eq!(field.sense(900_001).len(), 0);
    let only_strong = field.sense_where(|s| s.confidence > 500_000);
    assert_eq!(only_strong.len(), 1);
    assert_eq!(only_strong[0].id, "2");
}

#[test]
fn sense_by_type_partitions_sense() {
    let mut field = Field::new_at(0);
    field.emit(Signal::builder(query("a")).build_at(0, "1".to_string()));
    field.emit(Signal::builder(query("b")).build_at(0, "2".to_string()));
    field.emit(Signal::builder(OsintPayload::RawResult { url: "u".into(), title: "t".into(), engine: "e".into() }).build_at(0, "3".to_string()));
    field.emit(Signal::builder(OsintPayload::Summary { markdown: "m".into(), artifact_count: 1, source_count: 2 }).confidence(10_000).build_at(0, "4".to_string()));
    let by = field.sense_by_type(100_000);
    assert_eq!(by.user_queries.len(), 2);
    assert_eq!(by.raw_results.len(), 1);
    assert_eq!(by.summaries.len(), 0);
    assert_eq!(by.refined_queries.len() + by.filtered_results.len() + by.scraped_content.len(), 0);
    let all = field.sense_by_type(0);
    assert_eq!(all.summaries.len(), 1);
}

#[test]
fn stats_sum_over_live_signals() {
    let mut field = Field::new_at(0);
    assert_eq!(field.stats().avg_intensity, 0);
    field.emit(Signal::builder(query("a")).intensity(400_000).build_at(0, "1".to_string()));
    field.emit(Signal::builder(query("b")).intensity(600_001).build_at(0, "2".to_string()));
    let h = field.emit(Signal::builder(query("c")).intensity(200_000).build_at(0, "3".to_string()));
    field.reinforce(&h, "x");
    field.reinforce(&h, "y");
    let st = field.stats();
    assert_eq!(st.active_signals, 3);
    assert_eq!(st.total_intensity, 1_200_001);
    assert_eq!(st.avg_intensity, 400_000);
    assert_eq!(st.total_reinforcements, 2);
    assert_eq!(st.history_size, 0);
    field.clear();
    assert_eq!(field.active_count(), 0);
}

#[test]
fn system_clock_is_read() {
    let field = Field::new();
    // after 2020-01-01
    assert!(field.now() > 1_577_836_800_000);
    let d = Field::default();
    assert!(d.now() >= field.now());
}

#[test]
fn history_keeps_to_its_bound() {
    let mut field = Field::new_at(0);
    for i in 0..10_050u64 {
        let s = Signal::builder(OsintPayload::UserQuery { query: format!("q{}", i), priority: 1 })
            .origin("a")
            .ttl(1)
            .build_at(0, format!("id{}", i));
        field.emit(s);
    }
    assert_eq!(field.active_count(), 10_050);
    let r = field.tick(5);
    assert_eq!(r.expired_count, 10_050);
    assert_eq!(r.active_count, 0);
    assert_eq!(field.stats().history_size, 10_000);
    field.emit(
        Signal::builder(OsintPayload::UserQuery { query: "late".to_string(), priority: 1 })
            .ttl(1)
            .build_at(5, "late".to_string()),
    );
    assert_eq!(field.tick(5).expired_count, 1);
    assert_eq!(field.stats().history_size, 10_000);
}
