use vstd::prelude::*;
use crate::commit::{Commit, CommitError, Timestamp};
use crate::model::{EntityId, Event, Model};
use crate::replay::{replay, TimeTraveler};

verus! {

/// The commits of `log` that belong to `id`, in log order.
pub open spec fn history<M: Model>(log: Seq<Commit<M>>, id: EntityId) -> Seq<Commit<M>>
    decreases log.len(),
{
    if log.len() == 0 {
        Seq::empty()
    } else {
        let h = history(log.drop_last(), id);
        if log.last().spec_entity_id() == id {
            h.push(log.last())
        } else {
            h
        }
    }
}

/// Whether `log` holds at least one commit for `id`.
pub open spec fn is_known<M: Model>(log: Seq<Commit<M>>, id: EntityId) -> bool {
    exists|i: int| 0 <= i < log.len() && #[trigger] log[i].spec_entity_id() == id
}

/// `ids` lists every instance of `log` once.
pub open spec fn lists_instances<M: Model>(log: Seq<Commit<M>>, ids: Seq<EntityId>) -> bool {
    &&& ids.no_duplicates()
    &&& forall|id: EntityId| #[trigger] ids.contains(id) <==> is_known(log, id)
}

/// Whether a history starts with the creation of its instance.
pub open spec fn starts_with_create<M: Model>(h: Seq<Commit<M>>) -> bool {
    h.len() > 0 && h[0].event is Create
}

/// The model that `id` had at `until`: its creation replayed with the later
/// changes stamped no later than `until`; `NotFound` where the instance has
/// no creating first commit, or was created after `until`.
pub open spec fn snapshot_at<M: Model>(log: Seq<Commit<M>>, id: EntityId, until: Timestamp) -> Result<M, CommitError> {
    let h = history(log, id);
    if !starts_with_create(h) {
        Err(CommitError::NotFound)
    } else if !h[0].when.spec_le(until) {
        Err(CommitError::NotFound)
    } else {
        replay(h[0].event->Create_0, h.drop_first(), until)
    }
}

/// The models of the instances `ids` at `until`, in that order, leaving out
/// those created after `until`; the first failure of one instance fails the
/// whole list.
pub open spec fn snapshot_list_at<M: Model>(log: Seq<Commit<M>>, ids: Seq<EntityId>, until: Timestamp) -> Result<Seq<M>, CommitError>
    decreases ids.len(),
{
    if ids.len() == 0 {
        Ok(Seq::empty())
    } else {
        match snapshot_list_at(log, ids.drop_last(), until) {
            Err(e) => Err(e),
            Ok(ms) => {
                let h = history(log, ids.last());
                if !starts_with_create(h) {
                    Err(CommitError::NotFound)
                } else if !h[0].when.spec_le(until) {
                    Ok(ms)
                } else {
                    match replay(h[0].event->Create_0, h.drop_first(), until) {
                        Err(e) => Err(e),
                        Ok(m) => Ok(ms.push(m)),
                    }
                }
            },
        }
    }
}

/// The traveler that `get` gives for a history that starts with a creation.
pub open spec fn traveler_of<M: Model>(t: TimeTraveler<M>, h: Seq<Commit<M>>) -> bool {
    &&& starts_with_create(h)
    &&& t.model == h[0].event->Create_0
    &&& t.born == h[0].when
    &&& t.changes@ == h.drop_first()
}

/// An append-only log of commits, partitioned by instance.
pub trait CommitStore<M: Model>: Sized {
    /// Every commit accepted so far, in the order of acceptance.
    spec fn log(&self) -> Seq<Commit<M>>;

    /// Whether every operation of this backend succeeds.
    spec fn infallible(&self) -> bool;

    /// Every instance with at least one commit, each once, in an order of
    /// the backend's choosing.
    fn keys(&self) -> (r: Result<Vec<EntityId>, CommitError>)
        ensures
            self.infallible() ==> r is Ok,
            r is Ok ==> lists_instances(self.log(), r->Ok_0@),
    ;

    /// The commits of `id`, in the order they were accepted.
    fn change_list(&self, id: EntityId) -> (r: Result<Vec<Commit<M>>, CommitError>)
        ensures
            self.infallible() ==> r is Ok,
            r is Ok ==> r->Ok_0@ == history(self.log(), id),
    ;

    /// Appends `c` to the log.
    fn commit(&mut self, c: Commit<M>) -> (r: Result<(), CommitError>)
        ensures
            final(self).infallible() == old(self).infallible(),
            old(self).infallible() ==> r is Ok,
            r is Ok ==> final(self).log() == old(self).log().push(c),
            r is Err ==> final(self).log() == old(self).log(),
    ;
}

/// The stored instance `id`, ready to be replayed; `NotFound` where its
/// history is empty or does not start with its creation.
pub fn get<M: Model, S: CommitStore<M>>(store: &S, id: EntityId) -> (r: Result<TimeTraveler<M>, CommitError>)
    ensures
        r is Ok ==> traveler_of(r->Ok_0, history(store.log(), id)),
        store.infallible() ==> (r is Ok <==> starts_with_create(history(store.log(), id))),
        store.infallible() && r is Err ==> r->Err_0 == CommitError::NotFound,
{
    let changes = store.change_list(id)?;
    if changes.len() == 0 {
        return Err(CommitError::NotFound);
    }
    let mut rest: Vec<Commit<M>> = Vec::new();
    let mut i: usize = 1;
    while i < changes.len()
        invariant
            1 <= i <= changes.len(),
            rest@ == changes@.subrange(1, i as int),
        decreases changes.len() - i,
    {
        rest.push(changes[i].duplicate());
        proof {
            assert(changes@.subrange(1, i + 1) =~= changes@.subrange(1, i as int).push(changes@[i as int]));
        }
        i = i + 1;
    }
    proof {
        assert(changes@.subrange(1, changes.len() as int) =~= changes@.drop_first());
    }
    match &changes[0].event {
        Event::Create(m) => Ok(TimeTraveler { model: m.duplicate(), born: changes[0].when, changes: rest }),
        Event::Change(_, _) => Err(CommitError::NotFound),
    }
}

/// The model of `id` at `until`.
pub fn snapshot<M: Model, S: CommitStore<M>>(store: &S, id: EntityId, until: Timestamp) -> (r: Result<M, CommitError>)
    ensures
        r is Ok ==> r == snapshot_at(store.log(), id, until),
        store.infallible() ==> r == snapshot_at(store.log(), id, until),
{
    let t = get(store, id)?;
    t.travel_to(until)
}

/// Every stored instance, ready to be replayed, in the order of `keys`; the
/// first instance that `get` refuses fails the whole list.
pub fn entities<M: Model, S: CommitStore<M>>(store: &S) -> (r: Result<Vec<TimeTraveler<M>>, CommitError>)
    ensures
        r is Ok ==> exists|ids: Seq<EntityId>| {
            &&& lists_instances(store.log(), ids)
            &&& ids.len() == r->Ok_0.len()
            &&& forall|i: int| 0 <= i < ids.len() ==> traveler_of(#[trigger] r->Ok_0@[i], history(store.log(), ids[i]))
        },
        store.infallible() ==> (r is Ok <==> forall|id: EntityId| is_known(store.log(), id) ==> starts_with_create(#[trigger] history(store.log(), id))),
{
    let ids = store.keys()?;
    let mut out: Vec<TimeTraveler<M>> = Vec::new();
    let mut i: usize = 0;
    while i < ids.len()
        invariant
            0 <= i <= ids.len(),
            lists_instances(store.log(), ids@),
            out.len() == i,
            forall|j: int| 0 <= j < i ==> traveler_of(#[trigger] out@[j], history(store.log(), ids@[j])),
            store.infallible() ==> forall|j: int| 0 <= j < i ==> starts_with_create(#[trigger] history(store.log(), ids@[j])),
        decreases ids.len() - i,
    {
        let t = match get(store, ids[i]) {
            Ok(t) => t,
            Err(e) => {
                proof {
                    assert(ids@.contains(ids@[i as int]));
                }
                return Err(e);
            },
        };
        out.push(t);
        i = i + 1;
    }
    proof {
        if store.infallible() {
            assert forall|id: EntityId| is_known(store.log(), id) implies starts_with_create(#[trigger] history(store.log(), id)) by {
                assert(ids@.contains(id));
                let j = choose|j: int| 0 <= j < ids.len() && ids@[j] == id;
            }
        }
    }
    Ok(out)
}

/// Whether an executable result is the list result `s`.
pub open spec fn list_result_is<M: Model>(r: Result<Vec<M>, CommitError>, s: Result<Seq<M>, CommitError>) -> bool {
    match r {
        Ok(v) => s == Ok::<Seq<M>, CommitError>(v@),
        Err(e) => s == Err::<Seq<M>, CommitError>(e),
    }
}

/// The models of every stored instance at `until`, in the order of `keys`.
pub fn snapshot_list<M: Model, S: CommitStore<M>>(store: &S, until: Timestamp) -> (r: Result<Vec<M>, CommitError>)
    ensures
        r is Ok ==> exists|ids: Seq<EntityId>| lists_instances(store.log(), ids) && list_result_is(r, #[trigger] snapshot_list_at(store.log(), ids, until)),
        store.infallible() ==> exists|ids: Seq<EntityId>| lists_instances(store.log(), ids) && list_result_is(r, #[trigger] snapshot_list_at(store.log(), ids, until)),
{
    let ids = store.keys()?;
    let mut out: Vec<M> = Vec::new();
    let mut i: usize = 0;
    while i < ids.len()
        invariant
            0 <= i <= ids.len(),
            lists_instances(store.log(), ids@),
            snapshot_list_at(store.log(), ids@.take(i as int), until) == Ok::<Seq<M>, CommitError>(out@),
        decreases ids.len() - i,
    {
        let ghost log = store.log();
        proof {
            assert(ids@.take(i + 1).drop_last() =~= ids@.take(i as int));
            assert(ids@.take(i + 1).last() == ids@[i as int]);
        }
        let t = match get(store, ids[i]) {
            Ok(t) => t,
            Err(e) => {
                proof {
                    if store.infallible() {
                        lemma_list_error_sticks(log, ids@, (i + 1) as int, until);
                    }
                }
                return Err(e);
            },
        };
        let born = t.born;
        match t.travel_to(until) {
            Ok(m) => {
                out.push(m);
            },
            Err(e) => {
                if !born.le(&until) {
                } else {
                    proof {
                        lemma_list_error_sticks(log, ids@, (i + 1) as int, until);
                    }
                    return Err(e);
                }
            },
        }
        i = i + 1;
    }
    proof {
        assert(ids@.take(ids.len() as int) =~= ids@);
    }
    Ok(out)
}

/// Once the list of a prefix of `ids` fails, so does that of every longer
/// prefix.
proof fn lemma_list_error_sticks<M: Model>(log: Seq<Commit<M>>, ids: Seq<EntityId>, k: int, until: Timestamp)
    requires
        0 <= k <= ids.len(),
        snapshot_list_at(log, ids.take(k), until) is Err,
    ensures
        snapshot_list_at(log, ids, until) == snapshot_list_at(log, ids.take(k), until),
    decreases ids.len() - k,
{
    if k < ids.len() {
        assert(ids.take(k + 1).drop_last() =~= ids.take(k));
        lemma_list_error_sticks(log, ids, k + 1, until);
    } else {
        assert(ids.take(k) =~= ids);
    }
}

/// A log with one more commit knows exactly that commit's instance more.
proof fn lemma_known_push<M: Model>(log: Seq<Commit<M>>, c: Commit<M>)
    ensures
        forall|x: EntityId| #[trigger] is_known(log.push(c), x) <==> (is_known(log, x) || c.spec_entity_id() == x),
{
    let post = log.push(c);
    assert forall|x: EntityId| #[trigger] is_known(post, x) <==> (is_known(log, x) || c.spec_entity_id() == x) by {
        if is_known(log, x) {
            let k = choose|k: int| 0 <= k < log.len() && #[trigger] log[k].spec_entity_id() == x;
            assert(post[k] == log[k]);
        }
        if c.spec_entity_id() == x {
            assert(post[log.len() as int] == c);
        }
        if is_known(post, x) && c.spec_entity_id() != x {
            let k = choose|k: int| 0 <= k < post.len() && #[trigger] post[k].spec_entity_id() == x;
            assert(k < log.len());
            assert(log[k] == post[k]);
        }
    }
}

/// A commit log kept in memory, in the order of acceptance.
#[derive(Clone, Debug)]
pub struct MemStore<M: Model> {
    log: Vec<Commit<M>>,
}

impl<M: Model> MemStore<M> {
    pub fn new() -> (r: MemStore<M>)
        ensures
            r.log() == Seq::<Commit<M>>::empty(),
    {
        MemStore { log: Vec::new() }
    }
}

impl<M: Model> CommitStore<M> for MemStore<M> {
    closed spec fn log(&self) -> Seq<Commit<M>> {
        self.log@
    }

    open spec fn infallible(&self) -> bool {
        true
    }

    fn keys(&self) -> (r: Result<Vec<EntityId>, CommitError>) {
        let mut ids: Vec<EntityId> = Vec::new();
        let mut i: usize = 0;
        while i < self.log.len()
            invariant
                0 <= i <= self.log.len(),
                ids@.no_duplicates(),
                forall|id: EntityId| #[trigger] ids@.contains(id) <==> is_known(self.log@.take(i as int), id),
            decreases self.log.len() - i,
        {
            let id = self.log[i].entity_id();
            let mut seen = false;
            let mut j: usize = 0;
            while j < ids.len()
                invariant
                    0 <= j <= ids.len(),
                    seen <==> exists|k: int| 0 <= k < j && ids@[k] == id,
                decreases ids.len() - j,
            {
                if ids[j] == id {
                    seen = true;
                }
                j = j + 1;
            }
            let ghost before = ids@;
            if !seen {
                ids.push(id);
            }
            proof {
                let pre = self.log@.take(i as int);
                let post = self.log@.take(i + 1);
                lemma_known_push(pre, self.log@[i as int]);
                assert(post =~= pre.push(self.log@[i as int]));
                if seen {
                    let k = choose|k: int| 0 <= k < j && ids@[k] == id;
                    assert(before.contains(id));
                } else {
                    assert(ids@ == before.push(id));
                    assert forall|x: EntityId| #[trigger] ids@.contains(x) <==> (before.contains(x) || x == id) by {
                        if before.contains(x) {
                            let k = choose|k: int| 0 <= k < before.len() && before[k] == x;
                            assert(ids@[k] == x);
                        }
                        if ids@.contains(x) && x != id {
                            let k = choose|k: int| 0 <= k < ids@.len() && ids@[k] == x;
                            assert(before[k] == x);
                        }
                        if x == id {
                            assert(ids@[before.len() as int] == x);
                        }
                    }
                }
            }
            i = i + 1;
        }
        proof {
            assert(self.log@.take(self.log.len() as int) =~= self.log@);
        }
        Ok(ids)
    }

    fn change_list(&self, id: EntityId) -> (r: Result<Vec<Commit<M>>, CommitError>) {
        let mut out: Vec<Commit<M>> = Vec::new();
        let mut i: usize = 0;
        while i < self.log.len()
            invariant
                0 <= i <= self.log.len(),
                out@ == history(self.log@.take(i as int), id),
            decreases self.log.len() - i,
        {
            proof {
                assert(self.log@.take(i + 1).drop_last() =~= self.log@.take(i as int));
                assert(self.log@.take(i + 1).last() == self.log@[i as int]);
            }
            if self.log[i].entity_id() == id {
                out.push(self.log[i].duplicate());
            }
            i = i + 1;
        }
        proof {
            assert(self.log@.take(self.log.len() as int) =~= self.log@);
        }
        Ok(out)
    }

    fn commit(&mut self, c: Commit<M>) -> (r: Result<(), CommitError>) {
        self.log.push(c);
        Ok(())
    }
}

} // verus!
