use vstd::prelude::*;
use crate::backend::{lists_instances, list_result_is, snapshot_at, snapshot_list_at, CommitStore};
use crate::commit::{Commit, CommitError, Timestamp};
use crate::model::{EntityId, Model};
use crate::store::{Store, StoreReply};

verus! {

/// The name of an aggregate type.
pub trait EntityName {
    const NAME: &'static str;
}

/// The business logic of one aggregate type: it turns a command into the
/// commit that records its effect. It may read the store to decide.
pub trait ES: EntityName + Sized {
    type Model: Model;
    type Cmd;
    type Error;

    fn handle_command<S: CommitStore<Self::Model>>(&mut self, cmd: Self::Cmd, store: &Store<Self::Model, S>) -> Result<Commit<Self::Model>, Self::Error>;
}

/// A read of the stored instances.
#[derive(Clone, Copy, Debug, PartialEq, Eq, Structural)]
pub enum Query {
    All,
    One(EntityId),
}

/// What an aggregate type is asked: a command to run, or a query.
#[derive(Clone, Debug)]
pub enum CQRS<C> {
    Cmd(C),
    Query(Query),
}

/// Why a command left no commit.
#[derive(Clone, Debug)]
pub enum CommandError<X> {
    /// The handler refused the command.
    Rejected(X),
    /// The handler's commit could not be persisted.
    NotStored(CommitError),
}

/// What an aggregate type answers.
pub enum EntityReply<M: Model, X> {
    /// The instance a command was about, or why it failed.
    Done(Result<EntityId, CommandError<X>>),
    /// The store's answer to a query.
    Answer(StoreReply<M>),
}

/// The command side of one aggregate type: it owns the single handler and
/// the store, runs commands one at a time, and routes queries to the store.
pub struct Entity<E: ES, S: CommitStore<E::Model>> {
    pub handler: E,
    pub store: Store<E::Model, S>,
}

impl<E: ES, S: CommitStore<E::Model>> Entity<E, S> {
    /// An aggregate type whose store is named after it, with `_store` added.
    pub fn new(handler: E, backend: S) -> (r: Entity<E, S>)
        ensures
            r.handler == handler,
            r.store.backend == backend,
            r.store.name@ == E::NAME@ + "_store"@,
            !r.store.bus,
    {
        let name = String::from_str(E::NAME).concat("_store");
        Entity { handler, store: Store::new(name, backend) }
    }

    /// Runs `cmd` through the handler, which sees every commit made before,
    /// and persists the commit it returns.
    pub fn command(&mut self, cmd: E::Cmd) -> (r: Result<EntityId, CommandError<E::Error>>)
        ensures
            final(self).store.name == old(self).store.name,
            final(self).store.bus == old(self).store.bus,
            final(self).store.backend.infallible() == old(self).store.backend.infallible(),
            r is Ok ==> exists|c: Commit<E::Model>| {
                &&& c.spec_entity_id() == r->Ok_0
                &&& #[trigger] final(self).store.backend.log() == old(self).store.backend.log().push(c)
            },
            r is Err ==> final(self).store.backend.log() == old(self).store.backend.log(),
            r matches Err(CommandError::NotStored(_)) ==> !old(self).store.backend.infallible(),
    {
        let c = match self.handler.handle_command(cmd, &self.store) {
            Ok(c) => c,
            Err(x) => return Err(CommandError::Rejected(x)),
        };
        let id = c.entity_id();
        let ghost committed = c;
        match self.store.commit(c) {
            Ok(_) => {
                assert(committed.spec_entity_id() == id);
                Ok(id)
            },
            Err(e) => Err(CommandError::NotStored(e)),
        }
    }

    /// What the store's answer `r` to `q`, as it stood at `until`, may be.
    pub open spec fn answers(&self, q: Query, until: Timestamp, r: StoreReply<E::Model>) -> bool {
        let log = self.store.backend.log();
        match q {
            Query::One(id) => {
                &&& r matches StoreReply::Snapshot(m)
                &&& (m is Some ==> snapshot_at(log, id, until) == Ok::<E::Model, CommitError>(m->Some_0))
                &&& (self.store.backend.infallible() ==> m == snapshot_at(log, id, until).ok())
            },
            Query::All => {
                &&& r matches StoreReply::SnapshotList(l)
                &&& (l is Ok || self.store.backend.infallible()) ==> exists|ids: Seq<EntityId>| lists_instances(log, ids) && list_result_is(l, #[trigger] snapshot_list_at(log, ids, until))
            },
        }
    }

    /// Answers `q` as the store stood at `until`.
    pub fn query_at(&self, q: Query, until: Timestamp) -> (r: StoreReply<E::Model>)
        ensures
            self.answers(q, until, r),
    {
        match q {
            Query::One(id) => StoreReply::Snapshot(self.store.snapshot(id, until)),
            Query::All => StoreReply::SnapshotList(self.store.snapshot_list(until)),
        }
    }

    /// Handles one message; queries are answered as of now.
    pub fn receive(&mut self, msg: CQRS<E::Cmd>) -> (r: EntityReply<E::Model, E::Error>)
        ensures
            final(self).store.name == old(self).store.name,
            final(self).store.backend.infallible() == old(self).store.backend.infallible(),
            match msg {
                CQRS::Cmd(_) => {
                    &&& r matches EntityReply::Done(res)
                    &&& (res is Ok ==> exists|c: Commit<E::Model>| {
                        &&& c.spec_entity_id() == res->Ok_0
                        &&& #[trigger] final(self).store.backend.log() == old(self).store.backend.log().push(c)
                    })
                    &&& (res is Err ==> final(self).store.backend.log() == old(self).store.backend.log())
                    &&& (res matches Err(CommandError::NotStored(_)) ==> !old(self).store.backend.infallible())
                },
                CQRS::Query(q) => {
                    &&& final(self).store.backend.log() == old(self).store.backend.log()
                    &&& r matches EntityReply::Answer(a)
                    &&& exists|now: Timestamp| old(self).answers(q, now, a)
                },
            },
    {
        match msg {
            CQRS::Cmd(cmd) => EntityReply::Done(self.command(cmd)),
            CQRS::Query(q) => EntityReply::Answer(self.query_at(q, Timestamp::now())),
        }
    }
}

} // verus!
