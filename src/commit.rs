use vstd::prelude::*;
use crate::model::{EntityId, Event, Model};

verus! {

/// A point in time, in microseconds since the Unix epoch (UTC).
#[derive(Clone, Copy, Debug, PartialEq, Eq, Hash, Structural)]
pub struct Timestamp {
    pub micros: i64,
}

impl Timestamp {
    pub fn from_micros(micros: i64) -> (r: Timestamp)
        ensures
            r.micros == micros,
    {
        Timestamp { micros }
    }

    /// The current time.
    pub fn now() -> (r: Timestamp) {
        Timestamp { micros: utc_now_micros() }
    }

    pub open spec fn spec_le(self, other: Timestamp) -> bool {
        self.micros <= other.micros
    }

    pub fn le(&self, other: &Timestamp) -> (r: bool)
        ensures
            r == self.spec_le(*other),
    {
        self.micros <= other.micros
    }
}

/// Relies on chrono's `Utc::now` and `DateTime::timestamp_micros`: the
/// system clock, read in microseconds. Nothing is promised of the value.
#[verifier::external_body]
fn utc_now_micros() -> i64 {
    chrono::Utc::now().timestamp_micros()
}

/// Why a commit log could not answer.
#[derive(Clone, Copy, Debug, PartialEq, Eq, Structural)]
pub enum CommitError {
    /// A change for an instance that was never created.
    CantChange,
    /// No commit, or no creating commit, for the instance.
    NotFound,
    /// A second creation in an instance's history.
    Malformed,
}

impl CommitError {
    /// A sentence that says what went wrong.
    pub fn message(&self) -> (r: &'static str)
        ensures
            r@ == (match self {
                CommitError::CantChange => "Cant change non existing entity"@,
                CommitError::NotFound => "Didn't find commit for entity"@,
                CommitError::Malformed => "Entity history holds a second creation"@,
            }),
    {
        match self {
            CommitError::CantChange => "Cant change non existing entity",
            CommitError::NotFound => "Didn't find commit for entity",
            CommitError::Malformed => "Entity history holds a second creation",
        }
    }
}

/// An immutable, timestamped fact, with who made it and why.
#[derive(Clone, Debug)]
pub struct Commit<M: Model> {
    pub event: Event<M>,
    pub when: Timestamp,
    pub who: Option<String>,
    pub why: Option<String>,
}

impl<M: Model> Commit<M> {
    /// A commit of `event` stamped with the current time.
    pub fn new(event: Event<M>, who: Option<String>, why: Option<String>) -> (r: Commit<M>)
        ensures
            r.event == event,
            r.who == who,
            r.why == why,
    {
        Commit { event, when: Timestamp::now(), who, why }
    }

    /// A commit of `event` stamped with `when`.
    pub fn at(event: Event<M>, when: Timestamp) -> (r: Commit<M>)
        ensures
            r.event == event,
            r.when == when,
            r.who.is_none(),
            r.why.is_none(),
    {
        Commit { event, when, who: None, why: None }
    }

    pub open spec fn spec_entity_id(&self) -> EntityId {
        self.event.spec_entity_id()
    }

    pub fn entity_id(&self) -> (r: EntityId)
        ensures
            r == self.spec_entity_id(),
    {
        self.event.entity_id()
    }

    pub fn duplicate(&self) -> (r: Commit<M>)
        ensures
            r == *self,
    {
        Commit {
            event: self.event.duplicate(),
            when: self.when,
            who: self.who.clone(),
            why: self.why.clone(),
        }
    }
}

} // verus!
