# chronicle_engine

Distils "subjects" (people, characters, assistants, musicians, MCP servers)
from what they are observed to do: observations, seeded replays, comparisons,
rankings and distillation.

- `src/` is the verified library (Verus). It holds no floating-point value:
  each embedding is kept as the text (or the history of ratings) it is
  computed from, and scalar doubles are carried as bit patterns
  (`FloatBits`).
  - `text_map.rs`: a map from texts to values with distinct keys, viewed as a
    `Map<Seq<char>, V>`.
  - `text.rs`: decimal notation and the replay hash.
  - `subject.rs`: the record types and `Subject` (observe, simulate, seeded
    replay, compare, rank, surprise, distill).
  - `engine.rs`: `ChronicleEngine`, which files subjects by id.
  - `laws.rs`: properties across calls, proved.
- `app/` computes the doubles: text embeddings, blends, distances, preference
  deltas, surprise, confidence and distillation readiness.
- `tests/` exercises the library.
