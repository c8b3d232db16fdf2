use chronicle_engine::subject::{pair_string, ONE_BITS, ZERO_BITS};
use chronicle_engine::text::{checked_replay_hash, push_decimal, replay_hash_exec};
use chronicle_engine::{can_replay, ChronicleEngine, FloatBits, Subject, SubjectKind, TextMap};

fn rating(x: f64) -> FloatBits {
    FloatBits { bits: x.to_bits() }
}

#[test]
fn decimal_rendering() {
    let mut s = String::from("n=");
    push_decimal(&mut s, 0);
    assert_eq!(s, "n=0");
    let mut s = String::new();
    push_decimal(&mut s, 9876543210);
    assert_eq!(s, "9876543210");
    let mut s = String::new();
    push_decimal(&mut s, u64::MAX);
    assert_eq!(s, "18446744073709551615");
}

#[test]
fn replay_hash_values() {
    assert_eq!(replay_hash_exec(0, b"hello"), 99162322);
    assert_eq!(replay_hash_exec(7, b""), 7);
    assert_eq!(checked_replay_hash(1, b"hello"), Some(127791473));
    assert_eq!(checked_replay_hash(0, b"abcdefghijklm"), None);
    assert!(can_replay("hello", 5));
    assert!(can_replay("abcdefghijklm", 0));
    assert!(!can_replay("abcdefghijklm", 1));
}

#[test]
fn simulate_exact_output() {
    let s = Subject::new("test", SubjectKind::Person);
    assert_eq!(s.simulate("hello", 0), "simulated_test_seed_0_hash_2322");
    assert_eq!(s.simulate("hello", 1), "simulated_test_seed_1_hash_1473");
    // the same seed always gives the same output
    assert_eq!(s.simulate("hello", 2), s.simulate("hello", 2));
}

#[test]
fn seeded_replay_out_of_range_is_empty() {
    let mut s = Subject::new("test", SubjectKind::Person);
    assert!(s.seeded_replay(0, 5).is_empty());
    s.observe("hello", "world", &[]);
    assert!(s.seeded_replay(1, 5).is_empty());
    assert!(s.seeded_replay(0, 0).is_empty());
}

#[test]
fn seeded_replay_in_seed_order() {
    let mut s = Subject::new("test", SubjectKind::Person);
    s.observe("hello", "world", &[]);
    let r = s.seeded_replay(0, 3);
    assert_eq!(r.len(), 3);
    assert_eq!(r[0], "simulated_test_seed_0_hash_2322");
    assert_eq!(r[1], "simulated_test_seed_1_hash_1473");
}

#[test]
fn seeded_replay_merges_equal_prefixes() {
    // with an id this long the first 30 characters never reach the seed
    let mut s = Subject::new("a_rather_long_subject_id", SubjectKind::Person);
    s.observe("hello", "world", &[]);
    let r = s.seeded_replay(0, 5);
    assert_eq!(r.len(), 1);
    assert_eq!(r[0], s.simulate("hello", 0));
}

#[test]
fn compare_fills_every_field() {
    let s = Subject::new("test", SubjectKind::Person);
    let r = s.compare("hello", &["m"]);
    assert_eq!(r.len(), 1);
    assert_eq!(r[0].input, "hello");
    assert_eq!(r[0].seed, 0);
    assert_eq!(r[0].output, "simulated_test_seed_0_hash_2322");
    assert_eq!(r[0].embedding_text, "m:simulated_test_seed_0_hash_2322");
    assert!(s.compare("hello", &[]).is_empty());
}

#[test]
fn observe_records_exchange_texts() {
    let mut s = Subject::new("test", SubjectKind::Person);
    s.observe("in", "out", &["c1".to_string(), "c2".to_string()]);
    assert_eq!(s.perception_db[0].embedding_text, "in:out");
    assert_eq!(s.perception_db[0].context, vec!["c1".to_string(), "c2".to_string()]);
    assert_eq!(s.perception_db[0].timestamp, 0);
    assert_eq!(s.prediction_db[0].actual_output, Some("out".to_string()));
    assert_eq!(s.prediction_db[0].confidence.bits, ONE_BITS);
    assert_eq!(s.prediction_db[0].confidence.bits, 1.0f64.to_bits());
    assert_eq!(s.chronicle[0].prediction_error.bits, ZERO_BITS);
    assert!(s.chronicle[0].user_feedback.is_none());
    assert_eq!(s.style_sources, vec!["in:out".to_string()]);
    assert_eq!(pair_string("a", "b"), "a:b");
}

#[test]
fn surprise_when_prediction_failed() {
    let mut s = Subject::new("test", SubjectKind::Person);
    s.observe("hello", "world", &[]);
    s.chronicle[0].prediction.actual_output = Some("planet".to_string());
    let (e, a) = s.surprise_texts().unwrap();
    assert_eq!(e, "hello:world");
    assert_eq!(a, "planet");
    s.chronicle[0].prediction.actual_output = None;
    assert!(s.surprise_texts().is_none());
    assert!(Subject::new("x", SubjectKind::Person).surprise_texts().is_none());
}

#[test]
fn rank_sets_feedback_on_last_entry() {
    let mut s = Subject::new("test", SubjectKind::Person);
    s.observe("a", "b", &[]);
    s.observe("c", "d", &[]);
    s.rank("sim_0", rating(0.25), Some("nice"));
    assert!(s.chronicle[0].user_feedback.is_none());
    let fb = s.chronicle[1].user_feedback.as_ref().unwrap();
    assert_eq!(fb.rating, rating(0.25));
    assert_eq!(fb.reason, Some("nice".to_string()));
    assert!(fb.preferred_alternative.is_none());
    assert_eq!(s.ranking_model.preference_ratings, vec![rating(0.25)]);
    assert_eq!(s.ranking_model.vocabulary.get("nice"), Some(&rating(0.25)));
}

#[test]
fn rank_without_history_only_counts() {
    let mut s = Subject::new("test", SubjectKind::Person);
    s.rank("sim_0", rating(0.7), None);
    assert!(s.ranking_model.preference_ratings.is_empty());
    assert_eq!(s.ranking_model.vocabulary.len(), 0);
    assert_eq!(s.ranking_model.observations, 1);
    assert_eq!(s.ranking_model.confidence_percent, 1);
}

#[test]
fn confidence_caps_at_full() {
    let mut s = Subject::new("test", SubjectKind::Person);
    for _ in 0..105 {
        s.rank("sim", rating(0.5), None);
    }
    assert_eq!(s.ranking_model.observations, 105);
    assert_eq!(s.ranking_model.confidence_percent, 100);
}

#[test]
fn later_reason_replaces_rating() {
    let mut s = Subject::new("test", SubjectKind::Person);
    s.observe("a", "b", &[]);
    s.rank("sim_0", rating(0.1), Some("w"));
    s.rank("sim_1", rating(0.9), Some("w"));
    assert_eq!(s.ranking_model.vocabulary.len(), 1);
    assert_eq!(s.ranking_model.vocabulary.get("w"), Some(&rating(0.9)));
}

#[test]
fn distill_copies_subject() {
    let mut s = Subject::new("test", SubjectKind::Assistant);
    s.observe("a", "b", &[]);
    s.observe("c", "d", &[]);
    s.rank("sim_0", rating(0.9), Some("crisp"));
    let d = s.distill();
    assert_eq!(d.id, "test");
    assert_eq!(d.kind, SubjectKind::Assistant);
    assert_eq!(d.observations_trained_on, 2);
    assert_eq!(d.style_sources, vec!["a:b".to_string(), "c:d".to_string()]);
    assert_eq!(d.confidence_percent, 1);
    assert_eq!(d.vocabulary.get("crisp"), Some(&rating(0.9)));
}

#[test]
fn engine_distill() {
    let mut engine = ChronicleEngine::new();
    assert!(engine.distill("nobody").is_none());
    assert_eq!(engine.distilled.len(), 0);
    engine.create_subject("a", SubjectKind::Person);
    engine.observe("a", "x", "y", &[]);
    let d = engine.distill("a").unwrap();
    assert_eq!(d.observations_trained_on, 1);
    assert_eq!(engine.distilled.get("a").unwrap().observations_trained_on, 1);
}

#[test]
fn engine_ignores_unknown_subjects() {
    let mut engine = ChronicleEngine::new();
    engine.observe("ghost", "x", "y", &[]);
    engine.rank("ghost", "sim_0", rating(0.9), Some("w"));
    assert_eq!(engine.subjects.len(), 0);
    assert_eq!(engine.universal_vocabulary.len(), 0);
}

#[test]
fn create_subject_replaces_existing() {
    let mut engine = ChronicleEngine::new();
    engine.create_subject("a", SubjectKind::Person);
    engine.observe("a", "x", "y", &[]);
    engine.create_subject("a", SubjectKind::Musician);
    let s = engine.subjects.get("a").unwrap();
    assert_eq!(s.kind, SubjectKind::Musician);
    assert_eq!(s.perception_db.len(), 0);
    assert_eq!(s.id, "a");
    assert_eq!(engine.subjects.len(), 1);
}

#[test]
fn text_map_operations() {
    let mut m: TextMap<u32> = TextMap::new();
    assert_eq!(m.len(), 0);
    m.insert("one".to_string(), 1);
    m.insert("two".to_string(), 2);
    m.insert("one".to_string(), 11);
    assert_eq!(m.len(), 2);
    assert_eq!(m.get("one"), Some(&11));
    assert!(m.contains_key("two"));
    assert!(!m.contains_key("three"));
    let mut keys = m.keys();
    keys.sort();
    assert_eq!(keys, vec!["one".to_string(), "two".to_string()]);
    let copy = m.duplicate();
    assert_eq!(m.remove("one"), Some(11));
    assert_eq!(m.remove("one"), None);
    assert_eq!(m.len(), 1);
    assert_eq!(copy.len(), 2);
    let mut other: TextMap<u32> = TextMap::new();
    other.insert("two".to_string(), 22);
    other.insert("three".to_string(), 3);
    m.insert_all(&other);
    assert_eq!(m.len(), 2);
    assert_eq!(m.get("two"), Some(&22));
    assert_eq!(m.get("three"), Some(&3));
}
