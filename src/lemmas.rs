use vstd::prelude::*;
use crate::backend::{history, is_known, snapshot_at, snapshot_list_at, starts_with_create};
use crate::commit::{Commit, CommitError, Timestamp};
use crate::model::{EntityId, Model};
use crate::replay::replay;

verus! {

/// `m` with the changes `chs` applied from first to last.
pub open spec fn fold_changes<M: Model>(m: M, chs: Seq<M::Change>) -> M
    decreases chs.len(),
{
    if chs.len() == 0 {
        m
    } else {
        fold_changes(m, chs.drop_last()).changed(chs.last())
    }
}

/// The changes carried by a sequence of `Change` commits.
pub open spec fn changes_of<M: Model>(cs: Seq<Commit<M>>) -> Seq<M::Change> {
    cs.map_values(|c: Commit<M>| c.event->Change_1)
}

/// Whether every commit of `cs` is stamped no later than `until`.
pub open spec fn all_before<M: Model>(cs: Seq<Commit<M>>, until: Timestamp) -> bool {
    forall|i: int| 0 <= i < cs.len() ==> (#[trigger] cs[i]).when.spec_le(until)
}

/// Replaying changes, all made by `until`, is folding them into the seed
/// in commit order.
pub proof fn lemma_replay_folds_changes<M: Model>(seed: M, cs: Seq<Commit<M>>, until: Timestamp)
    requires
        forall|i: int| 0 <= i < cs.len() ==> (#[trigger] cs[i]).event is Change,
        all_before(cs, until),
    ensures
        replay(seed, cs, until) == Ok::<M, CommitError>(fold_changes(seed, changes_of(cs))),
    decreases cs.len(),
{
    if cs.len() > 0 {
        let p = cs.drop_last();
        assert forall|i: int| 0 <= i < p.len() implies (#[trigger] p[i]).event is Change && p[i].when.spec_le(until) by {
            assert(p[i] == cs[i]);
        }
        lemma_replay_folds_changes(seed, p, until);
        assert(changes_of(cs).drop_last() =~= changes_of(p));
        assert(cs.last() == cs[cs.len() - 1]);
    }
}

/// The snapshot of an instance created by `history(log, id)[0]` and changed
/// by the commits after it, all made by `until`, is its creation with those
/// changes folded in, in commit order.
pub proof fn lemma_snapshot_folds_history<M: Model>(log: Seq<Commit<M>>, id: EntityId, until: Timestamp)
    requires
        starts_with_create(history(log, id)),
        forall|i: int| 1 <= i < history(log, id).len() ==> (#[trigger] history(log, id)[i]).event is Change,
        all_before(history(log, id), until),
    ensures
        snapshot_at(log, id, until) == Ok::<M, CommitError>(
            fold_changes(history(log, id)[0].event->Create_0, changes_of(history(log, id).drop_first())),
        ),
{
    let h = history(log, id);
    let rest = h.drop_first();
    assert(h[0].when.spec_le(until));
    assert forall|i: int| 0 <= i < rest.len() implies (#[trigger] rest[i]).event is Change && rest[i].when.spec_le(until) by {
        assert(rest[i] == h[i + 1]);
    }
    lemma_replay_folds_changes(h[0].event->Create_0, rest, until);
}

/// A commit for another instance leaves an instance's history, and so its
/// snapshot, unchanged.
pub proof fn lemma_isolation<M: Model>(log: Seq<Commit<M>>, c: Commit<M>, id: EntityId, until: Timestamp)
    requires
        c.spec_entity_id() != id,
    ensures
        history(log.push(c), id) == history(log, id),
        snapshot_at(log.push(c), id, until) == snapshot_at(log, id, until),
{
    assert(log.push(c).drop_last() =~= log);
}

/// An instance with no commit has an empty history and no snapshot.
pub proof fn lemma_unknown_id<M: Model>(log: Seq<Commit<M>>, id: EntityId, until: Timestamp)
    requires
        !is_known(log, id),
    ensures
        history(log, id).len() == 0,
        snapshot_at(log, id, until) == Err::<M, CommitError>(CommitError::NotFound),
    decreases log.len(),
{
    if log.len() > 0 {
        let p = log.drop_last();
        assert(!is_known(p, id)) by {
            if is_known(p, id) {
                let k = choose|k: int| 0 <= k < p.len() && #[trigger] p[k].spec_entity_id() == id;
                assert(log[k] == p[k]);
            }
        }
        assert(log[log.len() - 1].spec_entity_id() != id);
        lemma_unknown_id(p, id, until);
    }
}

/// Every commit of an instance's history is one of the log's.
pub proof fn lemma_history_in_log<M: Model>(log: Seq<Commit<M>>, id: EntityId)
    ensures
        forall|k: int| 0 <= k < history(log, id).len() ==> log.contains(#[trigger] history(log, id)[k]),
    decreases log.len(),
{
    if log.len() > 0 {
        let p = log.drop_last();
        lemma_history_in_log(p, id);
        let h = history(log, id);
        assert forall|k: int| 0 <= k < h.len() implies log.contains(#[trigger] h[k]) by {
            if k < history(p, id).len() {
                assert(h[k] == history(p, id)[k]);
                let j = choose|j: int| 0 <= j < p.len() && p[j] == h[k];
                assert(log[j] == p[j]);
            } else {
                assert(log[log.len() - 1] == h[k]);
            }
        }
    }
}

/// Where every commit was made by `until`, the snapshot list of `ids` holds
/// one model per listed instance, each its own snapshot, in order; and it
/// succeeds wherever every listed instance's snapshot does.
pub proof fn lemma_list_complete<M: Model>(log: Seq<Commit<M>>, ids: Seq<EntityId>, until: Timestamp)
    requires
        all_before(log, until),
    ensures
        (forall|i: int| 0 <= i < ids.len() ==> (#[trigger] snapshot_at(log, ids[i], until)) is Ok) ==> snapshot_list_at(log, ids, until) is Ok,
        snapshot_list_at(log, ids, until) is Ok ==> {
            let ms = snapshot_list_at(log, ids, until)->Ok_0;
            &&& ms.len() == ids.len()
            &&& forall|i: int| 0 <= i < ids.len() ==> #[trigger] snapshot_at(log, ids[i], until) == Ok::<M, CommitError>(ms[i])
        },
    decreases ids.len(),
{
    if ids.len() > 0 {
        let p = ids.drop_last();
        assert forall|i: int| 0 <= i < p.len() implies #[trigger] snapshot_at(log, p[i], until) == snapshot_at(log, ids[i], until) by {
            assert(p[i] == ids[i]);
        }
        lemma_list_complete(log, p, until);
        let id = ids.last();
        let h = history(log, id);
        lemma_history_in_log(log, id);
        if h.len() > 0 {
            assert(log.contains(h[0]));
            let j = choose|j: int| 0 <= j < log.len() && log[j] == h[0];
            assert(log[j].when.spec_le(until));
        }
        assert(ids[ids.len() - 1] == id);
        if snapshot_list_at(log, ids, until) is Ok {
            let ms = snapshot_list_at(log, ids, until)->Ok_0;
            let mp = snapshot_list_at(log, p, until)->Ok_0;
            assert(ms == mp.push(snapshot_at(log, id, until)->Ok_0));
            assert forall|i: int| 0 <= i < ids.len() implies #[trigger] snapshot_at(log, ids[i], until) == Ok::<M, CommitError>(ms[i]) by {
                if i < p.len() {
                    assert(snapshot_at(log, p[i], until) == Ok::<M, CommitError>(mp[i]));
                }
            }
        }
        if (forall|i: int| 0 <= i < ids.len() ==> (#[trigger] snapshot_at(log, ids[i], until)) is Ok) {
            assert(snapshot_at(log, ids[ids.len() - 1], until) is Ok);
        }
    }
}

/// Once a commit is persisted, its instance's history ends with it: a query
/// made after its publication replays it.
pub proof fn lemma_persisted_commit_is_visible<M: Model>(log: Seq<Commit<M>>, c: Commit<M>)
    ensures
        history(log.push(c), c.spec_entity_id()) == history(log, c.spec_entity_id()).push(c),
{
    assert(log.push(c).drop_last() =~= log);
}

/// A change committed by `until` to an instance with a snapshot yields that
/// snapshot with the change applied: a later command sees the earlier one's
/// effect in full.
pub proof fn lemma_change_composes<M: Model>(log: Seq<Commit<M>>, c: Commit<M>, until: Timestamp)
    requires
        c.event is Change,
        c.when.spec_le(until),
        snapshot_at(log, c.spec_entity_id(), until) is Ok,
    ensures
        snapshot_at(log.push(c), c.spec_entity_id(), until) == Ok::<M, CommitError>(
            snapshot_at(log, c.spec_entity_id(), until)->Ok_0.changed(c.event->Change_1),
        ),
{
    let id = c.spec_entity_id();
    lemma_persisted_commit_is_visible(log, c);
    let h = history(log, id);
    let h2 = h.push(c);
    assert(h2[0] == h[0]);
    assert(h2.drop_first().drop_last() =~= h.drop_first());
    assert(h2.drop_first().last() == c);
}

/// A creation committed by `until` for an instance with no commit yields its
/// model as the instance's snapshot.
pub proof fn lemma_create_is_snapshot<M: Model>(log: Seq<Commit<M>>, c: Commit<M>, until: Timestamp)
    requires
        c.event is Create,
        c.when.spec_le(until),
        !is_known(log, c.spec_entity_id()),
    ensures
        snapshot_at(log.push(c), c.spec_entity_id(), until) == Ok::<M, CommitError>(c.event->Create_0),
{
    let id = c.spec_entity_id();
    lemma_unknown_id(log, id, until);
    lemma_persisted_commit_is_visible(log, c);
    let h2 = history(log, id).push(c);
    assert(h2[0] == c);
    assert(h2.drop_first().len() == 0);
}

} // verus!
