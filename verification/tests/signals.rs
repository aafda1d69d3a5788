use robin_smesh::signals::{DecayFunction, OsintPayload, Signal, SignalBuilder};
use robin_smesh::units::{exp_neg, UNIT};

fn user_query(query: &str, priority: u64) -> OsintPayload {
    OsintPayload::UserQuery { query: query.to_string(), priority }
}

#[test]
fn test_signal_creation() {
    let signal = Signal::builder(user_query("ransomware payments", 800_000))
        .intensity(900_000)
        .confidence(950_000)
        .origin("refiner-01")
        .build();

    assert_eq!(signal.intensity, 900_000);
    assert_eq!(signal.confidence, 950_000);
    assert!(!signal.origin_hash.is_empty());
}

#[test]
fn test_exponential_decay() {
    let signal = Signal::builder(user_query("test", 1_000_000))
        .intensity(1_000_000)
        .decay_rate(100_000)
        .build();

    let later = signal.created_at + 10_000;
    let intensity = signal.compute_intensity(later) as f64 / 1e6;
    // e^(-0.1 * 10) is about 0.368
    assert!((intensity - 0.368).abs() < 0.01);
}

#[test]
fn test_reinforcement() {
    let mut signal = Signal::builder(user_query("test", 1_000_000)).confidence(500_000).build();

    let initial_confidence = signal.confidence;
    signal.reinforce("agent-1");
    signal.reinforce("agent-2");
    signal.reinforce("agent-1");

    assert_eq!(signal.reinforcement_count, 2);
    assert!(signal.confidence > initial_confidence);
}

#[test]
fn builder_defaults_and_clamping() {
    let s = SignalBuilder::new(user_query("q", 1)).intensity(5_000_000).confidence(2_000_000).build_at(7, "id".to_string());
    assert_eq!(s.intensity, UNIT);
    assert_eq!(s.current_intensity, UNIT);
    assert_eq!(s.confidence, UNIT);
    assert_eq!(s.ttl, 60_000);
    assert_eq!(s.decay_rate, 100_000);
    assert_eq!(s.decay_function, DecayFunction::Exponential);
    assert_eq!(s.created_at, 7);
    assert_eq!(s.id, "id");
    assert_eq!(s.reinforcement_count, 0);
    assert!(s.reinforced_by.is_empty());
}

#[test]
fn origin_hash_is_digest_of_canonical_form_and_origin() {
    let s = Signal::builder(user_query("test", 1_000_000)).origin("agent-1").build();
    assert_eq!(s.origin_hash, "ef82a94966e0430d");
    let r = Signal::builder(OsintPayload::RefinedQuery {
        original: "a \"b\"".to_string(),
        refined: "x".to_string(),
        confidence: 900_000,
    })
    .origin("r")
    .build();
    assert_eq!(r.origin_hash, "5f93e1183988de09");
    assert_eq!(Signal::compute_origin_hash(&user_query("test", 1_000_000), "agent-1"), "ef82a94966e0430d");
}

#[test]
fn same_content_same_key_other_origin_other_key() {
    let a = Signal::builder(user_query("x", 1)).origin("one").build();
    let b = Signal::builder(user_query("x", 1)).origin("one").build();
    let c = Signal::builder(user_query("x", 1)).origin("two").build();
    assert_eq!(a.origin_hash, b.origin_hash);
    assert_ne!(a.origin_hash, c.origin_hash);
    assert_ne!(a.id, b.id);
    assert_eq!(a.id.len(), 36);
}

#[test]
fn decay_before_creation_and_after_lifetime() {
    let s = Signal::builder(user_query("x", 1)).intensity(800_000).ttl(1_000).build_at(10_000, "i".to_string());
    assert_eq!(s.compute_intensity(9_000), 800_000);
    assert_eq!(s.compute_intensity(10_000), 800_000);
    assert_eq!(s.compute_intensity(11_000), 0);
    assert_eq!(s.compute_intensity(20_000), 0);
    assert!(!s.is_expired(10_500));
    assert!(s.is_expired(11_000));
}

#[test]
fn linear_and_step_decay() {
    let linear = Signal::builder(user_query("x", 1))
        .decay_function(DecayFunction::Linear)
        .ttl(10_000)
        .build_at(0, "i".to_string());
    assert_eq!(linear.compute_intensity(2_500), 750_000);
    assert_eq!(linear.compute_intensity(9_999), 100);
    let step = Signal::builder(user_query("x", 1))
        .decay_function(DecayFunction::Step)
        .ttl(10_000)
        .build_at(0, "i".to_string());
    assert_eq!(step.compute_intensity(9_999), UNIT);
    assert_eq!(step.compute_intensity(10_000), 0);
}

#[test]
fn exponential_values() {
    assert_eq!(exp_neg(0), UNIT);
    assert_eq!(exp_neg(1_000_000), 367_879);
    assert_eq!(exp_neg(693_147), 500_000);
    assert_eq!(exp_neg(40_000_000), 0);
    let s = Signal::builder(user_query("x", 1)).decay_rate(100_000).build_at(0, "i".to_string());
    assert_eq!(s.compute_intensity(10_000), 367_879);
}

#[test]
fn expiry_below_one_hundredth() {
    // rate 1.0 per second: after 5 s about 0.0067
    let s = Signal::builder(user_query("x", 1)).decay_rate(1_000_000).ttl(60_000).build_at(0, "i".to_string());
    assert!(!s.is_expired(4_000));
    assert!(s.is_expired(5_000));
}

#[test]
fn effective_intensity_formula() {
    let mut s = Signal::builder(user_query("x", 1))
        .intensity(800_000)
        .confidence(500_000)
        .decay_function(DecayFunction::Step)
        .build_at(0, "i".to_string());
    assert_eq!(s.effective_intensity(1), 400_000);
    s.reinforce("a");
    // confidence 0.5 + 0.0666.., boost 1.1
    assert_eq!(s.confidence, 566_666);
    assert_eq!(s.effective_intensity(1), 800_000u64 * 566_666 * 1_100_000 / 1_000_000 / 1_000_000);
    let full = Signal::builder(user_query("x", 1)).decay_function(DecayFunction::Step).build_at(0, "i".to_string());
    assert_eq!(full.effective_intensity(1), UNIT);
}

#[test]
fn reinforcement_counts_each_worker_once_and_raises_less_each_time() {
    let mut s = Signal::builder(user_query("x", 1)).confidence(0).build_at(0, "i".to_string());
    s.reinforce("a");
    assert_eq!(s.confidence, 66_666);
    s.reinforce("b");
    assert_eq!(s.confidence, 66_666 + 50_000);
    s.reinforce("a");
    assert_eq!(s.confidence, 116_666);
    assert_eq!(s.reinforcement_count as usize, s.reinforced_by.len());
    assert_eq!(s.reinforced_by, vec!["a".to_string(), "b".to_string()]);
    let mut top = Signal::builder(user_query("x", 1)).confidence(990_000).build_at(0, "i".to_string());
    top.reinforce("a");
    assert_eq!(top.confidence, UNIT);
}

#[test]
fn canonical_form_escapes_texts_as_json_does() {
    let p = OsintPayload::UserQuery {
        query: "a\"b\\c\u{8}\t\n\u{c}\r\u{1}\u{1f} \u{7f}\u{e9}/".to_string(),
        priority: 5,
    };
    let json: String = robin_smesh::canonical::payload_json(&p).into_iter().collect();
    assert_eq!(
        json,
        "{\"type\":\"user_query\",\"query\":\"a\\\"b\\\\c\\b\\t\\n\\f\\r\\u0001\\u001f \u{7f}\u{e9}/\",\"priority\":5}"
    );
}
