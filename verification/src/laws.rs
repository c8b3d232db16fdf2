use vstd::prelude::*;
use crate::engine::ChronicleEngine;
use crate::subject::{
    distilled_from, first_per_key, is_comparison, replay_key, simulation_text, DistilledSubject,
    FloatBits, RankingModel, SimulationResult, Subject, SubjectKind,
};

verus! {

/// A new subject is balanced: as many predictions, chronicle entries and
/// style sources as observations (none of each).
pub proof fn law_fresh_subject_is_balanced(s: Subject, id: Seq<char>, kind: SubjectKind)
    requires
        s.is_fresh(id, kind),
    ensures
        s.is_balanced(),
{
}

/// Observing keeps a subject balanced: every observation gets exactly one
/// prediction and one chronicle entry.
pub proof fn law_observe_keeps_balance(
    old: Subject,
    new: Subject,
    input: Seq<char>,
    output: Seq<char>,
    context: Seq<String>,
)
    requires
        old.is_balanced(),
        Subject::observed(old, new, input, output, context),
    ensures
        new.is_balanced(),
{
}

/// Observing preserves the full history: the earlier chronicle is a prefix
/// of the new one, and the new entry records the observed input.
pub proof fn law_observe_preserves_history(
    old: Subject,
    new: Subject,
    input: Seq<char>,
    output: Seq<char>,
    context: Seq<String>,
)
    requires
        Subject::observed(old, new, input, output, context),
    ensures
        new.chronicle@.take(old.chronicle@.len() as int) == old.chronicle@,
        new.chronicle@[old.chronicle@.len() as int].observation.input@ == input,
        new.perception_db@.take(old.perception_db@.len() as int) == old.perception_db@,
{
    assert(new.chronicle@.take(old.chronicle@.len() as int) =~= new.chronicle@.drop_last());
    assert(new.perception_db@.take(old.perception_db@.len() as int)
        =~= new.perception_db@.drop_last());
}

/// Ranking never rewrites what was observed or predicted: every chronicle
/// entry keeps its observation and its prediction.
pub proof fn law_rank_preserves_history(
    old: Subject,
    new: Subject,
    rating: FloatBits,
    reason: Option<Seq<char>>,
)
    requires
        Subject::ranked(old, new, rating, reason),
    ensures
        new.chronicle@.len() == old.chronicle@.len(),
        forall|i: int|
            0 <= i < old.chronicle@.len() ==> (#[trigger] new.chronicle@[i]).observation
                == old.chronicle@[i].observation && new.chronicle@[i].prediction
                == old.chronicle@[i].prediction,
{
    if old.chronicle@.len() > 0 {
        assert forall|i: int| 0 <= i < old.chronicle@.len() implies (#[trigger] new.chronicle@[i]).observation
            == old.chronicle@[i].observation && new.chronicle@[i].prediction
            == old.chronicle@[i].prediction by {
            if i < old.chronicle@.len() - 1 {
                assert(new.chronicle@[i] == new.chronicle@.drop_last()[i]);
                assert(old.chronicle@[i] == old.chronicle@.drop_last()[i]);
            }
        }
    }
}

/// A freshly observed behavior is predicted exactly, so there is no surprise.
pub proof fn law_observe_leaves_no_surprise(
    old: Subject,
    new: Subject,
    input: Seq<char>,
    output: Seq<char>,
    context: Seq<String>,
)
    requires
        Subject::observed(old, new, input, output, context),
    ensures
        new.surprise_pair() is None,
{
}

/// The confidence of a ranking model is its number of rankings, capped at
/// 100, as a percentage.
pub open spec fn confidence_tracks_count(m: RankingModel) -> bool {
    m.confidence_percent == if m.observations < 100 {
        m.observations as int
    } else {
        100
    }
}

/// Each ranking counts once, confidence follows the count, never falls, and
/// strictly rises until it is full.
pub proof fn law_rank_raises_confidence(
    old: Subject,
    new: Subject,
    rating: FloatBits,
    reason: Option<Seq<char>>,
)
    requires
        confidence_tracks_count(old.ranking_model),
        Subject::ranked(old, new, rating, reason),
    ensures
        new.ranking_model.observations == old.ranking_model.observations + 1,
        confidence_tracks_count(new.ranking_model),
        new.ranking_model.confidence_percent >= old.ranking_model.confidence_percent,
        old.ranking_model.observations < 100 ==> new.ranking_model.confidence_percent
            > old.ranking_model.confidence_percent,
        new.ranking_model.confidence_percent <= 100,
{
}

/// A fresh ranking model has zero confidence, in step with its zero count.
pub proof fn law_fresh_confidence(m: RankingModel)
    requires
        m.is_fresh(),
    ensures
        confidence_tracks_count(m),
{
}

/// A ranking with a reason teaches the vocabulary that reason; one without
/// leaves the vocabulary as it was.
pub proof fn law_rank_learns_reason(
    old: Subject,
    new: Subject,
    rating: FloatBits,
    reason: Option<Seq<char>>,
)
    requires
        Subject::ranked(old, new, rating, reason),
    ensures
        reason matches Some(r) ==> new.ranking_model.vocabulary@.contains_key(r)
            && new.ranking_model.vocabulary@[r] == rating,
        reason is None ==> new.ranking_model.vocabulary@ == old.ranking_model.vocabulary@,
        forall|w: Seq<char>|
            old.ranking_model.vocabulary@.contains_key(w) ==> #[trigger] new.ranking_model.vocabulary@.contains_key(w),
{
}

/// Simulation is deterministic: the same subject, input and seed always give
/// the same output.
pub proof fn law_simulation_deterministic(
    id: Seq<char>,
    input: Seq<char>,
    seed: u32,
    first: Seq<char>,
    second: Seq<char>,
)
    requires
        first == simulation_text(id, input, seed),
        second == simulation_text(id, input, seed),
    ensures
        first == second,
{
}

/// Seeded replay keeps at most one output per key, never more outputs than
/// seeds, at least one when there is a seed, and only outputs that some seed
/// produced.
pub proof fn law_replay_bounds(s: Seq<Seq<char>>)
    ensures
        first_per_key(s).len() <= s.len(),
        s.len() > 0 ==> first_per_key(s).len() >= 1,
        forall|i: int, j: int|
            0 <= i < first_per_key(s).len() && 0 <= j < first_per_key(s).len() && i != j
                ==> replay_key(#[trigger] first_per_key(s)[i]) != replay_key(
                #[trigger] first_per_key(s)[j],
            ),
        forall|i: int|
            0 <= i < first_per_key(s).len() ==> s.contains(#[trigger] first_per_key(s)[i]),
    decreases s.len(),
{
    if s.len() > 0 {
        let t = s.drop_last();
        law_replay_bounds(t);
        let d = first_per_key(t);
        assert forall|i: int| 0 <= i < d.len() implies s.contains(#[trigger] d[i]) by {
            let k = choose|k: int| 0 <= k < t.len() && t[k] == d[i];
            assert(s[k] == d[i]);
        }
        assert(s[s.len() - 1] == s.last());
        if t.len() > 0 {
            assert(d.len() >= 1);
        }
    }
}

/// The well-formedness of an engine: each subject is filed under its own id.
pub open spec fn subjects_filed_by_id(e: ChronicleEngine) -> bool {
    forall|k: Seq<char>| #[trigger] e.subjects@.contains_key(k) ==> e.subjects@[k].id@ == k
}

/// Creating, observing and ranking keep every subject filed under its own id.
pub proof fn law_engine_files_by_id(
    old: ChronicleEngine,
    new: ChronicleEngine,
    id: Seq<char>,
    kind: SubjectKind,
    input: Seq<char>,
    output: Seq<char>,
    context: Seq<String>,
    rating: FloatBits,
    reason: Option<Seq<char>>,
)
    requires
        subjects_filed_by_id(old),
        ChronicleEngine::created(old, new, id, kind) || ChronicleEngine::observed(
            old,
            new,
            id,
            input,
            output,
            context,
        ) || ChronicleEngine::ranked(old, new, id, rating, reason),
    ensures
        subjects_filed_by_id(new),
{
    assert forall|k: Seq<char>| #[trigger] new.subjects@.contains_key(k) implies new.subjects@[k].id@
        == k by {
        if k != id {
            assert(old.subjects@.contains_key(k));
        }
    }
}

/// Observing one subject leaves every other subject as it was.
pub proof fn law_observe_isolated(
    old: ChronicleEngine,
    new: ChronicleEngine,
    id: Seq<char>,
    input: Seq<char>,
    output: Seq<char>,
    context: Seq<String>,
    other: Seq<char>,
)
    requires
        ChronicleEngine::observed(old, new, id, input, output, context),
        other != id,
    ensures
        new.subjects@.contains_key(other) == old.subjects@.contains_key(other),
        old.subjects@.contains_key(other) ==> new.subjects@[other] == old.subjects@[other],
{
}

/// Ranking one subject leaves every other subject as it was.
pub proof fn law_rank_isolated(
    old: ChronicleEngine,
    new: ChronicleEngine,
    id: Seq<char>,
    rating: FloatBits,
    reason: Option<Seq<char>>,
    other: Seq<char>,
)
    requires
        ChronicleEngine::ranked(old, new, id, rating, reason),
        other != id,
    ensures
        new.subjects@.contains_key(other) == old.subjects@.contains_key(other),
        old.subjects@.contains_key(other) ==> new.subjects@[other] == old.subjects@[other],
{
}

/// The universal vocabulary only grows, and a reason given when ranking an
/// existing subject becomes part of it.
pub proof fn law_universal_vocabulary_grows(
    old: ChronicleEngine,
    new: ChronicleEngine,
    id: Seq<char>,
    rating: FloatBits,
    reason: Option<Seq<char>>,
)
    requires
        ChronicleEngine::ranked(old, new, id, rating, reason),
    ensures
        forall|w: Seq<char>|
            old.universal_vocabulary@.contains_key(w) ==> #[trigger] new.universal_vocabulary@.contains_key(w),
        old.subjects@.contains_key(id) && reason is Some ==> new.universal_vocabulary@.contains_key(
            reason->0,
        ),
{
}

/// Every ranking of a subject with a chronicle is folded into the preference:
/// the rating history is the earlier history with the new rating appended,
/// so no earlier ranking is forgotten. Without a chronicle the history stays.
pub proof fn law_rank_folds_every_rating(
    old: Subject,
    new: Subject,
    rating: FloatBits,
    reason: Option<Seq<char>>,
)
    requires
        Subject::ranked(old, new, rating, reason),
    ensures
        old.chronicle@.len() > 0 ==> new.ranking_model.preference_ratings@.len()
            == old.ranking_model.preference_ratings@.len() + 1,
        old.chronicle@.len() > 0 ==> new.ranking_model.preference_ratings@.last() == rating,
        old.chronicle@.len() > 0 ==> forall|i: int|
            0 <= i < old.ranking_model.preference_ratings@.len()
                ==> #[trigger] new.ranking_model.preference_ratings@[i]
                == old.ranking_model.preference_ratings@[i],
        old.chronicle@.len() == 0 ==> new.ranking_model.preference_ratings@
            == old.ranking_model.preference_ratings@,
{
}

/// After an engine ranking of an existing subject, every word of that
/// subject's vocabulary has the subject's value in the universal vocabulary
/// (the latest value wins), the reason maps to the given rating, and every
/// other universal word keeps its value.
pub proof fn law_engine_rank_copies_vocabulary(
    old: ChronicleEngine,
    new: ChronicleEngine,
    id: Seq<char>,
    rating: FloatBits,
    reason: Option<Seq<char>>,
)
    requires
        ChronicleEngine::ranked(old, new, id, rating, reason),
        old.subjects@.contains_key(id),
    ensures
        forall|w: Seq<char>|
            #[trigger] new.subjects@[id].ranking_model.vocabulary@.contains_key(w)
                ==> new.universal_vocabulary@.contains_key(w) && new.universal_vocabulary@[w]
                == new.subjects@[id].ranking_model.vocabulary@[w],
        reason is Some ==> new.universal_vocabulary@.contains_key(reason->0)
            && new.universal_vocabulary@[reason->0] == rating,
        forall|w: Seq<char>|
            #[trigger] old.universal_vocabulary@.contains_key(w)
                && !new.subjects@[id].ranking_model.vocabulary@.contains_key(w)
                ==> new.universal_vocabulary@[w] == old.universal_vocabulary@[w],
{
    if reason is Some {
        let r = reason->0;
        assert(new.subjects@[id].ranking_model.vocabulary@.contains_key(r));
    }
}

/// Each comparison result carries the simulation of the input with that
/// result's own seed, and the seed is the model's position.
pub proof fn law_comparison_uses_own_seed(
    c: SimulationResult,
    id: Seq<char>,
    input: Seq<char>,
    model: Seq<char>,
    i: int,
)
    requires
        is_comparison(c, id, input, model, i),
    ensures
        c.seed == i as u32,
        c.output@ == simulation_text(id, input, c.seed),
        c.embedding_text@ == model + ":"@ + c.output@,
{
}

/// The surprise is zero exactly when there is no chronicle, no actual output
/// for the last prediction, or the last prediction's predicted output equals
/// its actual output; otherwise it is measured between the prediction's
/// embedding text and the actual output.
pub proof fn law_surprise_zero_iff_prediction_came_true(s: Subject)
    ensures
        s.surprise_pair() is None <==> (s.chronicle@.len() == 0
            || s.chronicle@.last().prediction.actual_output is None
            || s.chronicle@.last().prediction.predicted_output@
            == s.chronicle@.last().prediction.actual_output->0@),
        s.surprise_pair() is Some ==> s.surprise_pair()->0 == (
            s.chronicle@.last().prediction.embedding_text@,
            s.chronicle@.last().prediction.actual_output->0@,
        ),
{
}

/// A distillation carries the subject's confidence, which is never above full
/// where the subject's confidence tracks its ranking count.
pub proof fn law_distill_keeps_confidence(d: DistilledSubject, s: Subject)
    requires
        distilled_from(d, s),
    ensures
        d.confidence_percent == s.ranking_model.confidence_percent,
        confidence_tracks_count(s.ranking_model) ==> d.confidence_percent <= 100,
        confidence_tracks_count(s.ranking_model) ==> d.confidence_percent == if s.ranking_model.observations
            < 100 {
            s.ranking_model.observations as int
        } else {
            100
        },
{
}

} // verus!
