use vstd::prelude::*;
use crate::backend::{lists_instances, list_result_is, snapshot_at, snapshot_list_at, snapshot, snapshot_list, CommitStore};
use crate::commit::{Commit, CommitError, Timestamp};
use crate::model::{EntityId, Event, Model};
use std::marker::PhantomData;

verus! {

/// The topic on which a store named `name` publishes committed events.
pub open spec fn topic_of(name: Seq<char>) -> Seq<char> {
    name + "-events"@
}

/// The topic on which a store named `name` publishes committed events.
pub fn topic_for(name: &String) -> (r: String)
    ensures
        r@ == topic_of(name@),
{
    name.clone().concat("-events")
}

/// An event to hand to the event bus.
#[derive(Clone, Debug)]
pub struct Publish<M: Model> {
    pub topic: String,
    pub event: Event<M>,
}

/// What a store is asked to do.
#[derive(Clone, Debug)]
pub enum StoreMsg<M: Model> {
    Commit(Commit<M>),
    Snapshot(EntityId, Timestamp),
    SnapshotList(Timestamp),
    Subscribe(EntityId),
}

/// What a store answers, and what it asks of the event bus.
#[derive(Debug)]
pub enum StoreReply<M: Model> {
    /// The commit was persisted; the event to publish, where a bus is set.
    Committed(Option<Publish<M>>),
    /// The commit was not persisted, and nothing is published.
    CommitFailed(CommitError),
    Snapshot(Option<M>),
    SnapshotList(Result<Vec<M>, CommitError>),
    /// Per-instance subscription is not offered.
    Unsupported,
}

/// The persistence side of one aggregate type: it owns the commit backend,
/// persists commits, publishes them once persisted, and answers snapshot
/// queries by replay.
pub struct Store<M: Model, S: CommitStore<M>> {
    pub name: String,
    pub backend: S,
    /// Whether committed events go to an event bus.
    pub bus: bool,
    pub model: PhantomData<M>,
}

impl<M: Model, S: CommitStore<M>> Store<M, S> {
    /// A store that publishes nothing.
    pub fn new(name: String, backend: S) -> (r: Store<M, S>)
        ensures
            r.name == name,
            r.backend == backend,
            !r.bus,
    {
        Store { name, backend, bus: false, model: PhantomData }
    }

    /// A store that publishes each persisted event on its topic.
    pub fn with_bus(name: String, backend: S) -> (r: Store<M, S>)
        ensures
            r.name == name,
            r.backend == backend,
            r.bus,
    {
        Store { name, backend, bus: true, model: PhantomData }
    }

    /// Persists `c`; only once that has succeeded is its event handed out
    /// for publication, and only where a bus is set.
    pub fn commit(&mut self, c: Commit<M>) -> (r: Result<Option<Publish<M>>, CommitError>)
        ensures
            final(self).name == old(self).name,
            final(self).bus == old(self).bus,
            final(self).backend.infallible() == old(self).backend.infallible(),
            old(self).backend.infallible() ==> r is Ok,
            r is Ok ==> final(self).backend.log() == old(self).backend.log().push(c),
            r is Err ==> final(self).backend.log() == old(self).backend.log(),
            r is Ok ==> (match r->Ok_0 {
                Some(p) => old(self).bus && p.topic@ == topic_of(old(self).name@) && p.event == c.event,
                None => !old(self).bus,
            }),
    {
        let event = c.event.duplicate();
        self.backend.commit(c)?;
        if self.bus {
            Ok(Some(Publish { topic: topic_for(&self.name), event }))
        } else {
            Ok(None)
        }
    }

    /// The model of `id` at `until`, or nothing where the instance is not
    /// found or cannot be replayed.
    pub fn snapshot(&self, id: EntityId, until: Timestamp) -> (r: Option<M>)
        ensures
            r is Some ==> snapshot_at(self.backend.log(), id, until) == Ok::<M, CommitError>(r->Some_0),
            self.backend.infallible() ==> r == snapshot_at(self.backend.log(), id, until).ok(),
    {
        snapshot(&self.backend, id, until).ok()
    }

    /// The models of every instance at `until`; one failure fails the list.
    pub fn snapshot_list(&self, until: Timestamp) -> (r: Result<Vec<M>, CommitError>)
        ensures
            r is Ok ==> exists|ids: Seq<EntityId>| lists_instances(self.backend.log(), ids) && list_result_is(r, #[trigger] snapshot_list_at(self.backend.log(), ids, until)),
            self.backend.infallible() ==> exists|ids: Seq<EntityId>| lists_instances(self.backend.log(), ids) && list_result_is(r, #[trigger] snapshot_list_at(self.backend.log(), ids, until)),
    {
        snapshot_list(&self.backend, until)
    }

    /// Handles one message.
    pub fn receive(&mut self, msg: StoreMsg<M>) -> (r: StoreReply<M>)
        ensures
            final(self).name == old(self).name,
            final(self).bus == old(self).bus,
            final(self).backend.infallible() == old(self).backend.infallible(),
            match msg {
                StoreMsg::Commit(c) => match r {
                    StoreReply::Committed(p) => {
                        &&& final(self).backend.log() == old(self).backend.log().push(c)
                        &&& match p {
                            Some(p) => old(self).bus && p.topic@ == topic_of(old(self).name@) && p.event == c.event,
                            None => !old(self).bus,
                        }
                    },
                    StoreReply::CommitFailed(_) => {
                        &&& !old(self).backend.infallible()
                        &&& final(self).backend.log() == old(self).backend.log()
                    },
                    _ => false,
                },
                StoreMsg::Snapshot(id, until) => {
                    &&& final(self).backend == old(self).backend
                    &&& r matches StoreReply::Snapshot(m)
                    &&& (m is Some ==> snapshot_at(old(self).backend.log(), id, until) == Ok::<M, CommitError>(m->Some_0))
                    &&& (old(self).backend.infallible() ==> m == snapshot_at(old(self).backend.log(), id, until).ok())
                },
                StoreMsg::SnapshotList(until) => {
                    &&& final(self).backend == old(self).backend
                    &&& r matches StoreReply::SnapshotList(l)
                    &&& (l is Ok || old(self).backend.infallible()) ==> exists|ids: Seq<EntityId>| lists_instances(old(self).backend.log(), ids) && list_result_is(l, #[trigger] snapshot_list_at(old(self).backend.log(), ids, until))
                },
                StoreMsg::Subscribe(_) => {
                    &&& final(self).backend == old(self).backend
                    &&& r is Unsupported
                },
            },
    {
        match msg {
            StoreMsg::Commit(c) => match self.commit(c) {
                Ok(p) => StoreReply::Committed(p),
                Err(e) => StoreReply::CommitFailed(e),
            },
            StoreMsg::Snapshot(id, until) => StoreReply::Snapshot(self.snapshot(id, until)),
            StoreMsg::SnapshotList(until) => StoreReply::SnapshotList(self.snapshot_list(until)),
            StoreMsg::Subscribe(_) => StoreReply::Unsupported,
        }
    }
}

} // verus!
