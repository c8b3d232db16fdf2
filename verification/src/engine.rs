use vstd::prelude::*;
use crate::subject::{distilled_from, opt_str, DistilledSubject, FloatBits, Subject, SubjectKind};
use crate::text_map::TextMap;

verus! {

/// The engine managing all chronicles
#[derive(Debug)]
pub struct ChronicleEngine {
    pub subjects: TextMap<Subject>,
    pub distilled: TextMap<DistilledSubject>,
    pub universal_vocabulary: TextMap<FloatBits>,
}

impl Default for ChronicleEngine {
    fn default() -> (e: Self)
        ensures
            e.is_empty(),
    {
        ChronicleEngine {
            subjects: TextMap::new(),
            distilled: TextMap::new(),
            universal_vocabulary: TextMap::new(),
        }
    }
}

impl ChronicleEngine {
    /// No subject, no distillation and no vocabulary.
    pub open spec fn is_empty(self) -> bool {
        &&& self.subjects@ == Map::<Seq<char>, Subject>::empty()
        &&& self.distilled@ == Map::<Seq<char>, DistilledSubject>::empty()
        &&& self.universal_vocabulary@ == Map::<Seq<char>, FloatBits>::empty()
    }

    /// `new` is `old` after creating subject `id` of `kind`.
    pub open spec fn created(old: Self, new: Self, id: Seq<char>, kind: SubjectKind) -> bool {
        &&& new.subjects@ == old.subjects@.insert(id, new.subjects@[id])
        &&& new.subjects@[id].is_fresh(id, kind)
        &&& new.distilled@ == old.distilled@
        &&& new.universal_vocabulary@ == old.universal_vocabulary@
    }

    /// `new` is `old` after subject `id` observed `input` answered by `output`
    /// in `context`; nothing changes where there is no such subject.
    pub open spec fn observed(
        old: Self,
        new: Self,
        id: Seq<char>,
        input: Seq<char>,
        output: Seq<char>,
        context: Seq<String>,
    ) -> bool {
        &&& if old.subjects@.contains_key(id) {
            &&& new.subjects@ == old.subjects@.insert(id, new.subjects@[id])
            &&& Subject::observed(old.subjects@[id], new.subjects@[id], input, output, context)
        } else {
            new.subjects@ == old.subjects@
        }
        &&& new.distilled@ == old.distilled@
        &&& new.universal_vocabulary@ == old.universal_vocabulary@
    }

    /// `new` is `old` after subject `id` was ranked with `rating` and `reason`,
    /// its vocabulary then copied into the universal one; nothing changes
    /// where there is no such subject.
    pub open spec fn ranked(
        old: Self,
        new: Self,
        id: Seq<char>,
        rating: FloatBits,
        reason: Option<Seq<char>>,
    ) -> bool {
        &&& if old.subjects@.contains_key(id) {
            &&& new.subjects@ == old.subjects@.insert(id, new.subjects@[id])
            &&& Subject::ranked(old.subjects@[id], new.subjects@[id], rating, reason)
            &&& new.universal_vocabulary@ == old.universal_vocabulary@.union_prefer_right(
                new.subjects@[id].ranking_model.vocabulary@,
            )
        } else {
            &&& new.subjects@ == old.subjects@
            &&& new.universal_vocabulary@ == old.universal_vocabulary@
        }
        &&& new.distilled@ == old.distilled@
    }

    pub fn new() -> (e: Self)
        ensures
            e.is_empty(),
    {
        Self::default()
    }

    pub fn create_subject(&mut self, id: &str, kind: SubjectKind)
        ensures
            ChronicleEngine::created(*old(self), *final(self), id@, kind),
    {
        self.subjects.insert(id.to_owned(), Subject::new(id, kind));
    }

    pub fn observe(&mut self, subject_id: &str, input: &str, output: &str, context: &[String])
        ensures
            ChronicleEngine::observed(*old(self), *final(self), subject_id@, input@, output@, context@),
    {
        match self.subjects.remove(subject_id) {
            Some(mut subject) => {
                subject.observe(input, output, context);
                self.subjects.insert(subject_id.to_owned(), subject);
                assert(self.subjects@ =~= old(self).subjects@.insert(
                    subject_id@,
                    self.subjects@[subject_id@],
                ));
            },
            None => {
                assert(self.subjects@ =~= old(self).subjects@);
            },
        }
    }

    pub fn rank(&mut self, subject_id: &str, simulation_id: &str, rating: FloatBits, reason: Option<&str>)
        requires
            old(self).subjects@.contains_key(subject_id@) ==> old(
                self,
            ).subjects@[subject_id@].ranking_model.observations < usize::MAX,
        ensures
            ChronicleEngine::ranked(*old(self), *final(self), subject_id@, rating, opt_str(reason)),
    {
        match self.subjects.remove(subject_id) {
            Some(mut subject) => {
                subject.rank(simulation_id, rating, reason);
                // Propagate vocabulary to universal
                self.universal_vocabulary.insert_all(&subject.ranking_model.vocabulary);
                self.subjects.insert(subject_id.to_owned(), subject);
                assert(self.subjects@ =~= old(self).subjects@.insert(
                    subject_id@,
                    self.subjects@[subject_id@],
                ));
            },
            None => {
                assert(self.subjects@ =~= old(self).subjects@);
            },
        }
    }

    pub fn distill(&mut self, subject_id: &str) -> (r: Option<DistilledSubject>)
        ensures
            r is Some <==> old(self).subjects@.contains_key(subject_id@),
            final(self).subjects@ == old(self).subjects@,
            final(self).universal_vocabulary@ == old(self).universal_vocabulary@,
            match r {
                Some(d) => {
                    &&& distilled_from(d, old(self).subjects@[subject_id@])
                    &&& final(self).distilled@ == old(self).distilled@.insert(
                        subject_id@,
                        final(self).distilled@[subject_id@],
                    )
                    &&& distilled_from(
                        final(self).distilled@[subject_id@],
                        old(self).subjects@[subject_id@],
                    )
                },
                None => final(self).distilled@ == old(self).distilled@,
            },
    {
        match self.subjects.get(subject_id) {
            Some(subject) => {
                let d = subject.distill();
                // the engine keeps its own copy
                self.distilled.insert(subject_id.to_owned(), subject.distill());
                assert(self.distilled@ =~= old(self).distilled@.insert(
                    subject_id@,
                    self.distilled@[subject_id@],
                ));
                Some(d)
            },
            None => None,
        }
    }
}

} // verus!
