use vstd::prelude::*;

verus! {

/// Identifier of one aggregate instance: the partition key of the log.
#[derive(Clone, Copy, Debug, PartialEq, Eq, Hash, Structural)]
pub struct EntityId {
    pub value: u64,
}

impl EntityId {
    pub fn new(value: u64) -> (r: EntityId)
        ensures
            r.value == value,
    {
        EntityId { value }
    }
}

/// The projected state of one aggregate instance, rebuilt by folding its
/// changes into the model that created it.
pub trait Model: Sized + Clone + std::fmt::Debug {
    type Change: Clone + std::fmt::Debug;

    /// The instance this model belongs to.
    spec fn key(&self) -> EntityId;

    /// The model after one change has been applied.
    spec fn changed(self, change: Self::Change) -> Self;

    fn id(&self) -> (r: EntityId)
        ensures
            r == self.key(),
    ;

    fn apply_change(&mut self, change: &Self::Change)
        ensures
            *final(self) == old(self).changed(*change),
    ;

    /// An equal copy of the model.
    fn duplicate(&self) -> (r: Self)
        ensures
            r == *self,
    ;

    /// An equal copy of a change.
    fn duplicate_change(change: &Self::Change) -> (r: Self::Change)
        ensures
            r == *change,
    ;
}

/// A fact about one instance: its creation with the full initial model, or
/// one incremental change to it.
#[derive(Clone, Debug)]
pub enum Event<M: Model> {
    Create(M),
    Change(EntityId, M::Change),
}

impl<M: Model> Event<M> {
    pub open spec fn spec_entity_id(&self) -> EntityId {
        match self {
            Event::Create(m) => m.key(),
            Event::Change(id, _) => *id,
        }
    }

    pub fn entity_id(&self) -> (r: EntityId)
        ensures
            r == self.spec_entity_id(),
    {
        match self {
            Event::Create(m) => m.id(),
            Event::Change(id, _) => *id,
        }
    }

    /// The model carried by a `Create` event.
    pub fn entity(&self) -> (r: Option<M>)
        ensures
            r == (match self {
                Event::Create(m) => Some(*m),
                Event::Change(_, _) => None::<M>,
            }),
    {
        match self {
            Event::Create(m) => Some(m.duplicate()),
            Event::Change(_, _) => None,
        }
    }

    /// The change carried by a `Change` event.
    pub fn change(&self) -> (r: Option<M::Change>)
        ensures
            r == (match self {
                Event::Create(_) => None::<M::Change>,
                Event::Change(_, c) => Some(*c),
            }),
    {
        match self {
            Event::Create(_) => None,
            Event::Change(_, c) => Some(M::duplicate_change(c)),
        }
    }

    pub fn duplicate(&self) -> (r: Event<M>)
        ensures
            r == *self,
    {
        match self {
            Event::Create(m) => Event::Create(m.duplicate()),
            Event::Change(id, c) => Event::Change(*id, M::duplicate_change(c)),
        }
    }
}

} // verus!
