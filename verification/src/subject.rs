use vstd::prelude::*;
use vstd::utf8::encode_utf8;
use crate::text::{
    checked_replay_hash, decimal, lemma_replay_hash_seed, push_decimal, replay_hash, replay_hash_exec,
};
use crate::text_map::TextMap;

verus! {

/// What kind of thing we're distilling
#[derive(Debug, Clone, Copy, PartialEq, Eq, Structural)]
pub enum SubjectKind {
    Person,
    Character,
    Assistant,
    Musician,
    MCP,
}

/// The source of an observation
#[derive(Debug, Clone, Copy, PartialEq, Eq, Structural)]
pub enum ObservationSource {
    Direct,
    Simulated,
    UserProvided,
    Seeded,
}

/// An IEEE 754 double, held by its bit pattern. The library stores such
/// values (ratings, confidences, errors) but never computes with them.
#[derive(Debug, Clone, Copy, PartialEq, Eq, Structural)]
pub struct FloatBits {
    pub bits: u64,
}

/// The bit pattern of the double `1.0`.
pub const ONE_BITS: u64 = 0x3ff0_0000_0000_0000;

/// The bit pattern of the double `0.0`.
pub const ZERO_BITS: u64 = 0;

/// A single observation of subject behavior.
///
/// Its embedding is the text embedding of `embedding_text`.
#[derive(Debug, Clone)]
pub struct Observation {
    pub input: String,
    pub output: String,
    pub context: Vec<String>,
    pub embedding_text: String,
    pub timestamp: u64,
    pub source: ObservationSource,
}

/// A prediction of what the subject will do.
///
/// Its embedding is the text embedding of `embedding_text`.
#[derive(Debug, Clone)]
pub struct Prediction {
    pub input: String,
    pub predicted_output: String,
    pub actual_output: Option<String>,
    pub confidence: FloatBits,
    pub embedding_text: String,
}

/// User feedback on a prediction/simulation
#[derive(Debug, Clone)]
pub struct Feedback {
    pub rating: FloatBits,
    pub reason: Option<String>,
    pub preferred_alternative: Option<String>,
}

/// A chronicle entry: observation + prediction + error + feedback
#[derive(Debug, Clone)]
pub struct ChronicleEntry {
    pub observation: Observation,
    pub prediction: Prediction,
    pub prediction_error: FloatBits,
    pub user_feedback: Option<Feedback>,
}

/// Learned preferences from user rankings.
///
/// The preference embedding is the running blend, from the zero vector, of
/// the preference deltas of `preference_ratings` in order; each word of the
/// vocabulary maps to the rating whose preference delta it stands for. The
/// confidence is `confidence_percent / 100`.
#[derive(Debug)]
pub struct RankingModel {
    pub preference_ratings: Vec<FloatBits>,
    pub vocabulary: TextMap<FloatBits>,
    pub confidence_percent: u64,
    pub observations: usize,
}

/// A subject being chronicled.
///
/// The style embedding is the running blend, from the zero vector, of the
/// text embeddings of `style_sources` in order, the `n`-th with weight `1/n`.
#[derive(Debug)]
pub struct Subject {
    pub id: String,
    pub kind: SubjectKind,
    pub perception_db: Vec<Observation>,
    pub prediction_db: Vec<Prediction>,
    pub style_sources: Vec<String>,
    pub chronicle: Vec<ChronicleEntry>,
    pub ranking_model: RankingModel,
}

/// The result of a seeded replay or simulation.
///
/// Its embedding is the text embedding of `embedding_text`.
#[derive(Debug, Clone)]
pub struct SimulationResult {
    pub simulation_id: String,
    pub input: String,
    pub output: String,
    pub seed: u32,
    pub embedding_text: String,
}

/// A distilled subject — the compact model.
///
/// Its style embedding is the blend of `style_sources`, as for a subject.
#[derive(Debug)]
pub struct DistilledSubject {
    pub id: String,
    pub kind: SubjectKind,
    pub style_sources: Vec<String>,
    pub vocabulary: TextMap<FloatBits>,
    pub confidence_percent: u64,
    pub observations_trained_on: usize,
}

/// The views of a sequence of strings.
pub open spec fn texts(v: Seq<String>) -> Seq<Seq<char>> {
    v.map_values(|s: String| s@)
}

/// The view of an optional text.
pub open spec fn opt_text(o: Option<String>) -> Option<Seq<char>> {
    match o {
        Some(s) => Some(s@),
        None => None,
    }
}

/// The view of an optional string slice.
pub open spec fn opt_str(o: Option<&str>) -> Option<Seq<char>> {
    match o {
        Some(s) => Some(s@),
        None => None,
    }
}

/// The text embedded for an exchange: `first:second`.
pub open spec fn pair_text(first: Seq<char>, second: Seq<char>) -> Seq<char> {
    first + ":"@ + second
}

/// `first:second` as a string.
pub fn pair_string(first: &str, second: &str) -> (r: String)
    ensures
        r@ == pair_text(first@, second@),
{
    let mut r = first.to_owned();
    r.append(":");
    r.append(second);
    r
}

/// A copy of a list of strings.
pub fn copy_strings(v: &[String]) -> (r: Vec<String>)
    ensures
        r@ == v@,
{
    let n = v.len();
    let mut r: Vec<String> = Vec::new();
    let mut i: usize = 0;
    while i < n
        invariant
            n == v@.len(),
            i <= n,
            r@ == v@.take(i as int),
        decreases n - i,
    {
        r.push(v[i].clone());
        assert(r@ =~= v@.take(i + 1));
        i = i + 1;
    }
    assert(r@ =~= v@);
    r
}

fn copy_opt_str(o: Option<&str>) -> (r: Option<String>)
    ensures
        opt_text(r) == opt_str(o),
{
    match o {
        Some(s) => Some(s.to_owned()),
        None => None,
    }
}

/// `o` records a direct observation of `input` answered by `output` in `context`.
pub open spec fn is_direct_observation(
    o: Observation,
    input: Seq<char>,
    output: Seq<char>,
    context: Seq<String>,
) -> bool {
    &&& o.input@ == input
    &&& o.output@ == output
    &&& o.context@ == context
    &&& o.embedding_text@ == pair_text(input, output)
    &&& o.timestamp == 0
    &&& o.source == ObservationSource::Direct
}

/// `p` predicts exactly the observed `output` for `input`, with full confidence.
pub open spec fn is_mirror_prediction(p: Prediction, input: Seq<char>, output: Seq<char>) -> bool {
    &&& p.input@ == input
    &&& p.predicted_output@ == output
    &&& p.actual_output is Some
    &&& p.actual_output->0@ == output
    &&& p.confidence.bits == ONE_BITS
    &&& p.embedding_text@ == pair_text(input, output)
}

fn make_observation(input: &str, output: &str, context: &[String]) -> (o: Observation)
    ensures
        is_direct_observation(o, input@, output@, context@),
{
    Observation {
        input: input.to_owned(),
        output: output.to_owned(),
        context: copy_strings(context),
        embedding_text: pair_string(input, output),
        timestamp: 0,
        source: ObservationSource::Direct,
    }
}

fn make_prediction(input: &str, output: &str) -> (p: Prediction)
    ensures
        is_mirror_prediction(p, input@, output@),
{
    Prediction {
        input: input.to_owned(),
        predicted_output: output.to_owned(),
        actual_output: Some(output.to_owned()),
        confidence: FloatBits { bits: ONE_BITS },
        embedding_text: pair_string(input, output),
    }
}


/// The output of simulating subject `id` on `input` with `seed`:
/// `simulated_{id}_seed_{seed}_hash_{h}`, where `h` is the replay hash of the
/// input's UTF-8 bytes from `seed`, modulo 10000.
pub open spec fn simulation_text(id: Seq<char>, input: Seq<char>, seed: u32) -> Seq<char> {
    "simulated_"@ + id + "_seed_"@ + decimal(seed as nat) + "_hash_"@ + decimal(
        (replay_hash(seed as int, encode_utf8(input)) % 10000) as nat,
    )
}

/// The replay hash of `input` for the seed at position `i`.
pub open spec fn seed_hash(input: Seq<char>, i: int) -> int {
    replay_hash((i as u32) as int, encode_utf8(input))
}

/// The simulation of `input` fits in 64 bits for every seed below `count`.
pub open spec fn replay_fits(input: Seq<char>, count: int) -> bool {
    forall|i: int| 0 <= i < count ==> #[trigger] seed_hash(input, i) <= u64::MAX
}

/// The key by which replays are told apart: the first 30 characters.
pub open spec fn replay_key(s: Seq<char>) -> Seq<char> {
    if s.len() <= 30 {
        s
    } else {
        s.take(30)
    }
}

/// The texts of `s` whose key no earlier text has, in order.
pub open spec fn first_per_key(s: Seq<Seq<char>>) -> Seq<Seq<char>>
    decreases s.len(),
{
    if s.len() == 0 {
        Seq::empty()
    } else {
        let d = first_per_key(s.drop_last());
        if exists|j: int| 0 <= j < d.len() && replay_key(#[trigger] d[j]) == replay_key(s.last()) {
            d
        } else {
            d.push(s.last())
        }
    }
}

/// The simulations of `input` for the seeds below `count`, in seed order.
pub open spec fn replay_texts(id: Seq<char>, input: Seq<char>, count: nat) -> Seq<Seq<char>> {
    Seq::new(count, |i: int| simulation_text(id, input, i as u32))
}

/// `c` is the comparison run with `model` at position `i` on `input`.
pub open spec fn is_comparison(
    c: SimulationResult,
    id: Seq<char>,
    input: Seq<char>,
    model: Seq<char>,
    i: int,
) -> bool {
    &&& c.simulation_id@ == "sim_"@ + decimal(i as nat)
    &&& c.input@ == input
    &&& c.output@ == simulation_text(id, input, i as u32)
    &&& c.seed == i as u32
    &&& c.embedding_text@ == pair_text(model, c.output@)
}

/// `d` is the distillation of `s`.
pub open spec fn distilled_from(d: DistilledSubject, s: Subject) -> bool {
    &&& d.id@ == s.id@
    &&& d.kind == s.kind
    &&& d.style_sources@ == s.style_sources@
    &&& d.vocabulary@ == s.ranking_model.vocabulary@
    &&& d.confidence_percent == s.ranking_model.confidence_percent
    &&& d.observations_trained_on == s.perception_db@.len()
}

/// The key of a replay output.
fn replay_key_of(t: &String) -> (k: String)
    ensures
        k@ == replay_key(t@),
{
    let n = t.as_str().unicode_len();
    let m = if n < 30 {
        n
    } else {
        30
    };
    let k = t.as_str().substring_char(0, m).to_owned();
    assert(n <= 30 ==> t@.subrange(0, m as int) =~= t@);
    k
}

/// Whether simulating `input` stays within 64 bits for every seed below `count`.
pub fn can_replay(input: &str, count: usize) -> (b: bool)
    ensures
        b == replay_fits(input@, count as int),
{
    if count == 0 {
        return true;
    }
    let last = count - 1;
    let max_seed: u32 = if last > u32::MAX as usize {
        u32::MAX
    } else {
        last as u32
    };
    let ghost bytes = encode_utf8(input@);
    let fits = checked_replay_hash(max_seed, input.as_bytes()).is_some();
    proof {
        let top: int = if last > u32::MAX as usize { u32::MAX as int } else { last as int };
        assert(seed_hash(input@, top) == replay_hash(max_seed as int, bytes));
        if fits {
            assert forall|i: int| 0 <= i < count implies #[trigger] seed_hash(input@, i) <= u64::MAX by {
                lemma_replay_hash_seed((i as u32) as int, max_seed as int, bytes);
            }
        }
    }
    fits
}

impl RankingModel {
    /// A model that has seen no ranking.
    pub open spec fn is_fresh(self) -> bool {
        &&& self.preference_ratings@.len() == 0
        &&& self.vocabulary@ == Map::<Seq<char>, FloatBits>::empty()
        &&& self.confidence_percent == 0
        &&& self.observations == 0
    }
}

impl Default for RankingModel {
    fn default() -> (m: Self)
        ensures
            m.is_fresh(),
    {
        RankingModel {
            preference_ratings: Vec::new(),
            vocabulary: TextMap::new(),
            confidence_percent: 0,
            observations: 0,
        }
    }
}

impl Subject {
    /// The subject has no history yet.
    pub open spec fn is_fresh(self, id: Seq<char>, kind: SubjectKind) -> bool {
        &&& self.id@ == id
        &&& self.kind == kind
        &&& self.perception_db@.len() == 0
        &&& self.prediction_db@.len() == 0
        &&& self.style_sources@.len() == 0
        &&& self.chronicle@.len() == 0
        &&& self.ranking_model.is_fresh()
    }

    /// Every observation has its prediction, its chronicle entry and its
    /// share of the style embedding.
    pub open spec fn is_balanced(self) -> bool {
        &&& self.prediction_db@.len() == self.perception_db@.len()
        &&& self.chronicle@.len() == self.perception_db@.len()
        &&& self.style_sources@.len() == self.perception_db@.len()
    }

    /// `new` is `old` after observing `input` answered by `output` in `context`.
    pub open spec fn observed(
        old: Subject,
        new: Subject,
        input: Seq<char>,
        output: Seq<char>,
        context: Seq<String>,
    ) -> bool {
        &&& new.id == old.id
        &&& new.kind == old.kind
        &&& new.ranking_model == old.ranking_model
        &&& new.perception_db@.len() == old.perception_db@.len() + 1
        &&& new.perception_db@.drop_last() == old.perception_db@
        &&& is_direct_observation(new.perception_db@.last(), input, output, context)
        &&& new.prediction_db@.len() == old.prediction_db@.len() + 1
        &&& new.prediction_db@.drop_last() == old.prediction_db@
        &&& is_mirror_prediction(new.prediction_db@.last(), input, output)
        &&& new.chronicle@.len() == old.chronicle@.len() + 1
        &&& new.chronicle@.drop_last() == old.chronicle@
        &&& is_direct_observation(new.chronicle@.last().observation, input, output, context)
        &&& is_mirror_prediction(new.chronicle@.last().prediction, input, output)
        &&& new.chronicle@.last().prediction_error.bits == ZERO_BITS
        &&& new.chronicle@.last().user_feedback is None
        &&& new.style_sources@.len() == old.style_sources@.len() + 1
        &&& new.style_sources@.drop_last() == old.style_sources@
        &&& new.style_sources@.last()@ == pair_text(input, output)
    }

    pub fn new(id: &str, kind: SubjectKind) -> (s: Self)
        ensures
            s.is_fresh(id@, kind),
    {
        Subject {
            id: id.to_owned(),
            kind,
            perception_db: Vec::new(),
            prediction_db: Vec::new(),
            style_sources: Vec::new(),
            chronicle: Vec::new(),
            ranking_model: RankingModel::default(),
        }
    }

    /// Observe a real behavior
    pub fn observe(&mut self, input: &str, output: &str, context: &[String])
        ensures
            Subject::observed(*old(self), *final(self), input@, output@, context@),
    {
        let obs = make_observation(input, output, context);
        let pred = make_prediction(input, output);
        self.perception_db.push(obs);
        self.prediction_db.push(pred);
        self.chronicle.push(
            ChronicleEntry {
                observation: make_observation(input, output, context),
                prediction: make_prediction(input, output),
                prediction_error: FloatBits { bits: ZERO_BITS },
                user_feedback: None,
            },
        );
        self.style_sources.push(pair_string(input, output));
        assert(self.perception_db@.drop_last() =~= old(self).perception_db@);
        assert(self.prediction_db@.drop_last() =~= old(self).prediction_db@);
        assert(self.chronicle@.drop_last() =~= old(self).chronicle@);
        assert(self.style_sources@.drop_last() =~= old(self).style_sources@);
    }

    /// `new` is `old` after a ranking with `rating` and the optional `reason`.
    pub open spec fn ranked(
        old: Subject,
        new: Subject,
        rating: FloatBits,
        reason: Option<Seq<char>>,
    ) -> bool {
        &&& new.id == old.id
        &&& new.kind == old.kind
        &&& new.perception_db == old.perception_db
        &&& new.prediction_db == old.prediction_db
        &&& new.style_sources == old.style_sources
        &&& if old.chronicle@.len() > 0 {
            let last = old.chronicle@.last();
            let entry = new.chronicle@.last();
            &&& new.chronicle@.len() == old.chronicle@.len()
            &&& new.chronicle@.drop_last() == old.chronicle@.drop_last()
            &&& entry.observation == last.observation
            &&& entry.prediction == last.prediction
            &&& entry.prediction_error == last.prediction_error
            &&& entry.user_feedback is Some
            &&& entry.user_feedback->0.rating == rating
            &&& opt_text(entry.user_feedback->0.reason) == reason
            &&& entry.user_feedback->0.preferred_alternative is None
            &&& new.ranking_model.preference_ratings@ == old.ranking_model.preference_ratings@.push(rating)
        } else {
            &&& new.chronicle@ == old.chronicle@
            &&& new.ranking_model.preference_ratings@ == old.ranking_model.preference_ratings@
        }
        &&& new.ranking_model.vocabulary@ == match reason {
            Some(r) => old.ranking_model.vocabulary@.insert(r, rating),
            None => old.ranking_model.vocabulary@,
        }
        &&& new.ranking_model.observations == old.ranking_model.observations + 1
        &&& new.ranking_model.confidence_percent == if new.ranking_model.observations < 100 {
            new.ranking_model.observations as int
        } else {
            100
        }
    }

    /// Accept user ranking and learn from it
    pub fn rank(&mut self, simulation_id: &str, rating: FloatBits, reason: Option<&str>)
        requires
            old(self).ranking_model.observations < usize::MAX,
        ensures
            Subject::ranked(*old(self), *final(self), rating, opt_str(reason)),
    {
        match self.chronicle.pop() {
            Some(mut entry) => {
                entry.user_feedback = Some(
                    Feedback { rating, reason: copy_opt_str(reason), preferred_alternative: None },
                );
                self.chronicle.push(entry);
                assert(self.chronicle@.drop_last() =~= old(self).chronicle@.drop_last());
                self.ranking_model.preference_ratings.push(rating);
            },
            None => {},
        }
        match reason {
            Some(r) => {
                self.ranking_model.vocabulary.insert(r.to_owned(), rating);
            },
            None => {},
        }
        self.ranking_model.observations = self.ranking_model.observations + 1;
        let count = self.ranking_model.observations;
        self.ranking_model.confidence_percent = if count < 100 {
            count as u64
        } else {
            100
        };
    }

    /// Simulate what the subject would do (deterministic based on seed)
    pub fn simulate(&self, input: &str, seed: u32) -> (r: String)
        requires
            replay_hash(seed as int, encode_utf8(input@)) <= u64::MAX,
        ensures
            r@ == simulation_text(self.id@, input@, seed),
    {
        let h = replay_hash_exec(seed, input.as_bytes());
        let mut r = "simulated_".to_owned();
        r.append(self.id.as_str());
        r.append("_seed_");
        push_decimal(&mut r, seed as u64);
        r.append("_hash_");
        push_decimal(&mut r, h % 10000);
        assert(r@ =~= simulation_text(self.id@, input@, seed));
        r
    }

    /// Seeded replay — generate multiple variations of past input
    pub fn seeded_replay(&self, past_index: usize, num_seeds: u32) -> (r: Vec<String>)
        requires
            past_index < self.chronicle@.len() ==> replay_fits(
                self.chronicle@[past_index as int].observation.input@,
                num_seeds as int,
            ),
        ensures
            past_index >= self.chronicle@.len() ==> r@.len() == 0,
            past_index < self.chronicle@.len() ==> texts(r@) == first_per_key(
                replay_texts(
                    self.id@,
                    self.chronicle@[past_index as int].observation.input@,
                    num_seeds as nat,
                ),
            ),
    {
        if past_index >= self.chronicle.len() {
            return Vec::new();
        }
        let input = self.chronicle[past_index].observation.input.as_str();
        let ghost all = replay_texts(self.id@, input@, num_seeds as nat);
        let mut results: Vec<String> = Vec::new();
        let mut keys: Vec<String> = Vec::new();
        let mut seed: u32 = 0;
        assert(all.take(0) =~= Seq::<Seq<char>>::empty());
        assert(texts(results@) =~= Seq::<Seq<char>>::empty());
        while seed < num_seeds
            invariant
                seed <= num_seeds,
                all == replay_texts(self.id@, input@, num_seeds as nat),
                replay_fits(input@, num_seeds as int),
                texts(results@) == first_per_key(all.take(seed as int)),
                keys@.len() == results@.len(),
                forall|j: int| 0 <= j < keys@.len() ==> #[trigger] keys@[j]@ == replay_key(results@[j]@),
            decreases num_seeds - seed,
        {
            assert(seed_hash(input@, seed as int) <= u64::MAX);
            let t = self.simulate(input, seed);
            let k = replay_key_of(&t);
            let ghost d = texts(results@);
            let mut found = false;
            let mut j: usize = 0;
            while j < keys.len()
                invariant
                    j <= keys@.len(),
                    found <==> exists|q: int| 0 <= q < j && #[trigger] keys@[q]@ == k@,
                decreases keys@.len() - j,
            {
                if keys[j] == k {
                    found = true;
                }
                j = j + 1;
            }
            proof {
                let s2 = all.take(seed + 1);
                assert(s2.drop_last() =~= all.take(seed as int));
                assert(s2.last() == t@);
                if found {
                    let q = choose|q: int| 0 <= q < keys@.len() && #[trigger] keys@[q]@ == k@;
                    assert(d[q] == results@[q]@);
                    assert(replay_key(d[q]) == replay_key(s2.last()));
                } else {
                    assert forall|q: int| 0 <= q < d.len() implies replay_key(#[trigger] d[q])
                        != replay_key(s2.last()) by {
                        assert(d[q] == results@[q]@);
                        assert(keys@[q]@ == replay_key(results@[q]@));
                    }
                }
            }
            if !found {
                results.push(t);
                keys.push(k);
                assert(texts(results@) =~= d.push(t@));
            }
            seed = seed + 1;
        }
        assert(all.take(num_seeds as int) =~= all);
        results
    }

    /// Compare multiple simulations and prepare for ranking
    pub fn compare(&self, input: &str, models: &[&str]) -> (r: Vec<SimulationResult>)
        requires
            replay_fits(input@, models@.len() as int),
        ensures
            r@.len() == models@.len(),
            forall|i: int|
                0 <= i < models@.len() ==> is_comparison(
                    #[trigger] r@[i],
                    self.id@,
                    input@,
                    models@[i]@,
                    i,
                ),
            forall|i: int|
                0 <= i < models@.len() ==> (#[trigger] r@[i]).seed == i as u32 && r@[i].output@
                    == simulation_text(self.id@, input@, r@[i].seed),
    {
        let n = models.len();
        let mut r: Vec<SimulationResult> = Vec::new();
        let mut i: usize = 0;
        while i < n
            invariant
                n == models@.len(),
                i <= n,
                replay_fits(input@, n as int),
                r@.len() == i,
                forall|j: int|
                    0 <= j < i ==> is_comparison(#[trigger] r@[j], self.id@, input@, models@[j]@, j),
            decreases n - i,
        {
            let seed = i as u32;
            assert(seed_hash(input@, i as int) <= u64::MAX);
            let output = self.simulate(input, seed);
            let combined = pair_string(models[i], output.as_str());
            let mut simulation_id = "sim_".to_owned();
            push_decimal(&mut simulation_id, i as u64);
            r.push(
                SimulationResult {
                    simulation_id,
                    input: input.to_owned(),
                    output,
                    seed,
                    embedding_text: combined,
                },
            );
            i = i + 1;
        }
        r
    }

    /// The texts whose embeddings' distance is the surprise of the last
    /// prediction: that prediction's embedding text and its actual output.
    /// `None` where the surprise is zero: no chronicle yet, no actual output,
    /// or the prediction came true.
    pub open spec fn surprise_pair(self) -> Option<(Seq<char>, Seq<char>)> {
        if self.chronicle@.len() == 0 {
            None
        } else {
            let p = self.chronicle@.last().prediction;
            match p.actual_output {
                Some(a) => if p.predicted_output@ == a@ {
                    None
                } else {
                    Some((p.embedding_text@, a@))
                },
                None => None,
            }
        }
    }

    /// Compute prediction error (surprise): the texts it is measured between.
    pub fn surprise_texts(&self) -> (r: Option<(String, String)>)
        ensures
            match r {
                Some((e, a)) => self.surprise_pair() == Some((e@, a@)),
                None => self.surprise_pair() is None,
            },
            r is None <==> (self.chronicle@.len() == 0
                || self.chronicle@.last().prediction.actual_output is None
                || self.chronicle@.last().prediction.predicted_output@
                == self.chronicle@.last().prediction.actual_output->0@),
            r matches Some((e, a)) ==> e@ == self.chronicle@.last().prediction.embedding_text@
                && a@ == self.chronicle@.last().prediction.actual_output->0@,
    {
        let n = self.chronicle.len();
        if n == 0 {
            return None;
        }
        let p = &self.chronicle[n - 1].prediction;
        match &p.actual_output {
            Some(a) => {
                if p.predicted_output == *a {
                    None
                } else {
                    Some((p.embedding_text.clone(), a.clone()))
                }
            },
            None => None,
        }
    }

    /// Distill into a tiny style embedding
    pub fn distill(&self) -> (d: DistilledSubject)
        ensures
            distilled_from(d, *self),
            d.confidence_percent == self.ranking_model.confidence_percent,
    {
        DistilledSubject {
            id: self.id.clone(),
            kind: self.kind,
            style_sources: copy_strings(self.style_sources.as_slice()),
            vocabulary: self.ranking_model.vocabulary.duplicate(),
            confidence_percent: self.ranking_model.confidence_percent,
            observations_trained_on: self.perception_db.len(),
        }
    }
}

} // verus!
