use chronicle_engine::{ChronicleEngine, FloatBits, ObservationSource, Subject, SubjectKind};

fn ctx() -> Vec<String> {
    vec!["test_context".to_string()]
}

fn rating(x: f64) -> FloatBits {
    FloatBits { bits: x.to_bits() }
}

#[test]
fn test_create_person_subject() {
    let mut engine = ChronicleEngine::new();
    engine.create_subject("alice", SubjectKind::Person);
    assert!(engine.subjects.contains_key("alice"));
    assert_eq!(engine.subjects.get("alice").unwrap().kind, SubjectKind::Person);
}

#[test]
fn test_create_character_subject() {
    let mut engine = ChronicleEngine::new();
    engine.create_subject("gandalf", SubjectKind::Character);
    assert_eq!(engine.subjects.get("gandalf").unwrap().kind, SubjectKind::Character);
}

#[test]
fn test_create_assistant_subject() {
    let mut engine = ChronicleEngine::new();
    engine.create_subject("helper", SubjectKind::Assistant);
    assert_eq!(engine.subjects.get("helper").unwrap().kind, SubjectKind::Assistant);
}

#[test]
fn test_create_musician_subject() {
    let mut engine = ChronicleEngine::new();
    engine.create_subject("coltrane", SubjectKind::Musician);
    assert_eq!(engine.subjects.get("coltrane").unwrap().kind, SubjectKind::Musician);
}

#[test]
fn test_create_mcp_subject() {
    let mut engine = ChronicleEngine::new();
    engine.create_subject("mcp_server", SubjectKind::MCP);
    assert_eq!(engine.subjects.get("mcp_server").unwrap().kind, SubjectKind::MCP);
}

#[test]
fn test_observe_records_in_perception_db() {
    let mut s = Subject::new("test", SubjectKind::Person);
    s.observe("hello", "world", &ctx());
    assert_eq!(s.perception_db.len(), 1);
    assert_eq!(s.perception_db[0].input, "hello");
    assert_eq!(s.perception_db[0].output, "world");
    assert_eq!(s.perception_db[0].source, ObservationSource::Direct);
}

#[test]
fn test_observe_generates_prediction() {
    let mut s = Subject::new("test", SubjectKind::Person);
    s.observe("hello", "world", &ctx());
    assert_eq!(s.prediction_db.len(), 1);
    assert_eq!(s.prediction_db[0].predicted_output, "world");
}

#[test]
fn test_balance_check_observations_equals_predictions() {
    let mut s = Subject::new("test", SubjectKind::Person);
    for i in 0..10 {
        s.observe(&format!("in{}", i), &format!("out{}", i), &ctx());
    }
    assert_eq!(s.perception_db.len(), s.prediction_db.len());
    assert_eq!(s.perception_db.len(), 10);
}

#[test]
fn test_surprise_for_unexpected_output() {
    let mut s = Subject::new("test", SubjectKind::Person);
    s.observe("hello", "expected", &ctx());
    // Manually set actual output to something different
    s.prediction_db[0].actual_output = Some("unexpected".to_string());
    s.prediction_db[0].embedding_text = "predicted".to_string();
    // Surprise is measured on the chronicle's last prediction, which still
    // came true: the surprise is zero, so in particular not negative.
    let surprise = s.surprise_texts();
    assert!(surprise.is_none());
}

#[test]
fn test_surprise_zero_for_predicted_output() {
    let mut s = Subject::new("test", SubjectKind::Person);
    s.observe("hello", "world", &ctx());
    // observation and prediction match perfectly → surprise is zero
    let surprise = s.surprise_texts();
    assert!(surprise.is_none());
}

#[test]
fn test_seeded_replay_generates_variations() {
    let mut s = Subject::new("test", SubjectKind::Person);
    s.observe("hello", "world", &ctx());
    let results = s.seeded_replay(0, 5);
    assert!(results.len() >= 1);
    assert!(results.len() <= 5);
}

#[test]
fn test_compare_produces_simulation_results() {
    let s = Subject::new("test", SubjectKind::Person);
    let models = vec!["model_a", "model_b", "model_c"];
    let results = s.compare("hello", &models);
    assert_eq!(results.len(), 3);
    assert_eq!(results[0].simulation_id, "sim_0");
    assert_eq!(results[1].simulation_id, "sim_1");
    assert_eq!(results[2].simulation_id, "sim_2");
}

#[test]
fn test_rank_updates_preference_embedding() {
    let mut s = Subject::new("test", SubjectKind::Person);
    s.observe("hello", "world", &ctx());
    let before = s.ranking_model.preference_ratings.clone();
    s.rank("sim_0", rating(0.8), None);
    let after = s.ranking_model.preference_ratings.clone();
    assert_ne!(before, after);
}

#[test]
fn test_rank_with_reason_updates_vocabulary() {
    let mut s = Subject::new("test", SubjectKind::Person);
    s.observe("hello", "world", &ctx());
    s.rank("sim_0", rating(0.9), Some("casual tone"));
    assert!(s.ranking_model.vocabulary.contains_key("casual tone"));
}

#[test]
fn test_vocabulary_learning_across_subjects() {
    let mut engine = ChronicleEngine::new();
    engine.create_subject("a", SubjectKind::Person);
    engine.create_subject("b", SubjectKind::Character);
    engine.observe("a", "hi", "there", &ctx());
    engine.observe("b", "hello", "world", &ctx());
    engine.rank("a", "sim_0", rating(0.9), Some("casual"));
    engine.rank("b", "sim_0", rating(0.8), Some("formal"));
    assert!(engine.universal_vocabulary.contains_key("casual"));
    assert!(engine.universal_vocabulary.contains_key("formal"));
    assert_eq!(engine.universal_vocabulary.len(), 2);
}

#[test]
fn test_chronicle_preserves_full_history() {
    let mut s = Subject::new("test", SubjectKind::Person);
    s.observe("a", "b", &ctx());
    s.observe("c", "d", &ctx());
    assert_eq!(s.chronicle.len(), 2);
    assert_eq!(s.chronicle[0].observation.input, "a");
    assert_eq!(s.chronicle[1].observation.input, "c");
}

#[test]
fn test_multiple_subjects_dont_interfere() {
    let mut engine = ChronicleEngine::new();
    engine.create_subject("a", SubjectKind::Person);
    engine.create_subject("b", SubjectKind::Character);
    engine.observe("a", "hi", "there", &ctx());
    engine.observe("b", "hello", "world", &ctx());
    assert_eq!(engine.subjects.get("a").unwrap().perception_db.len(), 1);
    assert_eq!(engine.subjects.get("b").unwrap().perception_db.len(), 1);
    assert_ne!(
        engine.subjects.get("a").unwrap().style_sources,
        engine.subjects.get("b").unwrap().style_sources
    );
}

#[test]
fn test_confidence_increases_with_observations() {
    let mut s = Subject::new("test", SubjectKind::Person);
    s.observe("a", "b", &ctx());
    s.rank("sim_0", rating(0.5), None);
    let c1 = s.ranking_model.confidence_percent;
    s.observe("c", "d", &ctx());
    s.rank("sim_1", rating(0.7), None);
    let c2 = s.ranking_model.confidence_percent;
    assert!(c2 > c1);
}

#[test]
fn test_universal_vocabulary_grows() {
    let mut engine = ChronicleEngine::new();
    engine.create_subject("a", SubjectKind::Person);
    engine.observe("a", "hi", "there", &ctx());
    engine.rank("a", "sim_0", rating(0.9), Some("word1"));
    assert_eq!(engine.universal_vocabulary.len(), 1);
    engine.rank("a", "sim_1", rating(0.8), Some("word2"));
    assert_eq!(engine.universal_vocabulary.len(), 2);
}

#[test]
fn test_mcp_subject_observation_logging() {
    let mut engine = ChronicleEngine::new();
    engine.create_subject("mcp1", SubjectKind::MCP);
    engine.observe("mcp1", "request", "response", &vec!["tool_call".to_string()]);
    let s = engine.subjects.get("mcp1").unwrap();
    assert_eq!(s.perception_db.len(), 1);
    assert_eq!(s.kind, SubjectKind::MCP);
    assert_eq!(s.perception_db[0].context[0], "tool_call");
}

#[test]
fn test_musician_subject_musical_vocabulary() {
    let mut s = Subject::new("coltrane", SubjectKind::Musician);
    s.observe("play blues", "A minor pentatonic run", &ctx());
    s.rank("sim_0", rating(0.95), Some("modal jazz"));
    assert!(s.ranking_model.vocabulary.contains_key("modal jazz"));
    let d = s.distill();
    assert_eq!(d.kind, SubjectKind::Musician);
    assert!(d.vocabulary.contains_key("modal jazz"));
}
