//! Chronicle engine: records what a subject does, replays it with seeds,
//! learns preferences from rankings and distills subjects.
//!
//! Embeddings and other floating-point values are not computed here. Every
//! embedding is a deterministic function of a text or of a history of
//! ratings that this library keeps (see the types' documentation), and
//! scalar doubles are carried as their bit patterns in [`FloatBits`].

pub mod engine;
pub mod laws;
pub mod subject;
pub mod text;
pub mod text_map;

pub use engine::ChronicleEngine;
pub use subject::{
    can_replay, ChronicleEntry, DistilledSubject, Feedback, FloatBits, Observation,
    ObservationSource, Prediction, RankingModel, SimulationResult, Subject, SubjectKind,
};
pub use text_map::TextMap;
