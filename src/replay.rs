use vstd::prelude::*;
use crate::commit::{Commit, CommitError, Timestamp};
use crate::model::{Event, Model};

verus! {

/// `seed` with the changes of `changes` applied in order, leaving out those
/// stamped after `until`; a creation among them fails the fold.
pub open spec fn replay<M: Model>(seed: M, changes: Seq<Commit<M>>, until: Timestamp) -> Result<M, CommitError>
    decreases changes.len(),
{
    if changes.len() == 0 {
        Ok(seed)
    } else {
        match replay(seed, changes.drop_last(), until) {
            Err(e) => Err(e),
            Ok(m) => {
                let c = changes.last();
                match c.event {
                    Event::Create(_) => Err(CommitError::Malformed),
                    Event::Change(_, ch) => if c.when.spec_le(until) {
                        Ok(m.changed(ch))
                    } else {
                        Ok(m)
                    },
                }
            },
        }
    }
}

/// A stored instance: the model it was created with and the commits that
/// followed, replayed on demand up to a moment in time.
pub struct TimeTraveler<M: Model> {
    pub model: M,
    pub born: Timestamp,
    pub changes: Vec<Commit<M>>,
}

impl<M: Model> TimeTraveler<M> {
    /// What `travel_to(until)` returns: nothing before the instance was
    /// created, else the replay of its changes.
    pub open spec fn spec_travel_to(self, until: Timestamp) -> Result<M, CommitError> {
        if !self.born.spec_le(until) {
            Err(CommitError::NotFound)
        } else {
            replay(self.model, self.changes@, until)
        }
    }

    /// The model as it stood at `until`.
    pub fn travel_to(self, until: Timestamp) -> (r: Result<M, CommitError>)
        ensures
            r == self.spec_travel_to(until),
    {
        if !self.born.le(&until) {
            return Err(CommitError::NotFound);
        }
        let TimeTraveler { model, born, changes } = self;
        let ghost seed = model;
        let mut m = model;
        let mut i: usize = 0;
        while i < changes.len()
            invariant
                0 <= i <= changes.len(),
                seed == self.model,
                changes@ == self.changes@,
                self.born.spec_le(until),
                replay(seed, changes@.take(i as int), until) == Ok::<M, CommitError>(m),
            decreases changes.len() - i,
        {
            let c = &changes[i];
            proof {
                assert(changes@.take(i + 1).drop_last() =~= changes@.take(i as int));
            }
            match &c.event {
                Event::Create(_) => {
                    proof {
                        assert(changes@.take(i + 1).last() == changes@[i as int]);
                        assert(replay(seed, changes@.take(i + 1), until) == Err::<M, CommitError>(CommitError::Malformed));
                        lemma_replay_error_sticks(seed, changes@, (i + 1) as int, until);
                    }
                    return Err(CommitError::Malformed);
                },
                Event::Change(_, ch) => {
                    if c.when.le(&until) {
                        m.apply_change(ch);
                    }
                    proof {
                        assert(changes@.take(i + 1).last() == changes@[i as int]);
                    }
                },
            }
            i = i + 1;
        }
        proof {
            assert(changes@.take(changes.len() as int) =~= changes@);
        }
        Ok(m)
    }

    /// The model as it stands now.
    pub fn to_present(self) -> (r: Result<M, CommitError>)
        ensures
            exists|now: Timestamp| r == self.spec_travel_to(now),
    {
        self.travel_to(Timestamp::now())
    }
}

/// Once a prefix's replay fails, so does that of every longer prefix.
proof fn lemma_replay_error_sticks<M: Model>(seed: M, cs: Seq<Commit<M>>, k: int, until: Timestamp)
    requires
        0 <= k <= cs.len(),
        replay(seed, cs.take(k), until) is Err,
    ensures
        replay(seed, cs, until) == replay(seed, cs.take(k), until),
    decreases cs.len() - k,
{
    if k < cs.len() {
        assert(cs.take(k + 1).drop_last() =~= cs.take(k));
        lemma_replay_error_sticks(seed, cs, k + 1, until);
    } else {
        assert(cs.take(k) =~= cs);
    }
}

} // verus!
