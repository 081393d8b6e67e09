use crate::error::Violation;
use std::collections::HashMap;
use vstd::prelude::*;

verus! {

broadcast use vstd::std_specs::hash::group_hash_axioms;

/// Identity of an entity. Identifiers are issued in increasing order and are
/// never issued twice.
#[derive(Clone, Copy, Debug, PartialEq, Eq, Hash, Structural)]
pub struct EntityId(pub u64);

/// Stands for the type of a type-erased value. Every access to a stored value
/// presents the tag it expects, and is refused when the tags differ.
#[derive(Clone, Copy, Debug, PartialEq, Eq, Hash, Structural)]
pub struct TypeTag(pub u64);

/// What a slot holds at the moment.
pub enum SlotState<V> {
    /// The identifier is issued and the entity is still being built.
    Reserved,
    /// The value is in the store.
    Present(V),
    /// The value is out of the store while an update of it runs.
    Leased,
}

/// One slot of the store.
pub struct Entry<V> {
    pub type_tag: TypeTag,
    /// The number of strong shares of the entity: its strong handles, and the
    /// reservation while the entity is being built.
    pub strong: usize,
    pub state: SlotState<V>,
}

/// A strong reference: the entity stays in the store while one exists.
/// It is given up with [`EntityMap::release`].
#[derive(Debug)]
pub struct Handle {
    id: EntityId,
    type_tag: TypeTag,
}

/// A reference that does not keep its entity in the store.
#[derive(Clone, Copy, Debug, PartialEq, Eq, Structural)]
pub struct WeakHandle {
    pub id: EntityId,
    pub type_tag: TypeTag,
}

/// An identifier reserved for an entity that is being built. It holds the
/// entity's first strong share.
#[derive(Debug)]
pub struct Slot {
    id: EntityId,
    type_tag: TypeTag,
}

/// A value taken out of its slot for the time of an update.
pub struct Lease<V> {
    entity: V,
    id: EntityId,
    type_tag: TypeTag,
}

impl Handle {
    pub closed spec fn id(&self) -> EntityId {
        self.id
    }

    pub closed spec fn type_tag(&self) -> TypeTag {
        self.type_tag
    }

    pub fn entity_id(&self) -> (id: EntityId)
        ensures
            id == self.id(),
    {
        self.id
    }

    pub fn entity_type(&self) -> (type_tag: TypeTag)
        ensures
            type_tag == self.type_tag(),
    {
        self.type_tag
    }

    /// A weak reference to the same entity.
    pub fn downgrade(&self) -> (weak: WeakHandle)
        ensures
            weak.id == self.id(),
            weak.type_tag == self.type_tag(),
    {
        WeakHandle { id: self.id, type_tag: self.type_tag }
    }
}

impl Slot {
    pub closed spec fn id(&self) -> EntityId {
        self.id
    }

    pub closed spec fn type_tag(&self) -> TypeTag {
        self.type_tag
    }

    pub fn entity_id(&self) -> (id: EntityId)
        ensures
            id == self.id(),
    {
        self.id
    }

    pub fn entity_type(&self) -> (type_tag: TypeTag)
        ensures
            type_tag == self.type_tag(),
    {
        self.type_tag
    }
}

impl<V> Lease<V> {
    /// The value as it stands now.
    pub closed spec fn value(&self) -> V {
        self.entity
    }

    pub closed spec fn id(&self) -> EntityId {
        self.id
    }

    pub fn entity(&self) -> (entity: &V)
        ensures
            *entity == self.value(),
    {
        &self.entity
    }

    /// The value, to be changed in place.
    pub fn entity_mut(&mut self) -> (entity: &mut V)
        ensures
            *entity == old(self).value(),
            final(self).value() == *final(entity),
            final(self).id() == old(self).id(),
            final(self).type_tag() == old(self).type_tag(),
    {
        &mut self.entity
    }

    pub closed spec fn type_tag(&self) -> TypeTag {
        self.type_tag
    }

    pub fn entity_id(&self) -> (id: EntityId)
        ensures
            id == self.id(),
    {
        self.id
    }

    pub fn entity_type(&self) -> (type_tag: TypeTag)
        ensures
            type_tag == self.type_tag(),
    {
        self.type_tag
    }
}

/// The store as a mathematical value: its slots by identifier, and the next
/// identifier it will issue.
pub struct Entities<V> {
    pub slots: Map<u64, Entry<V>>,
    pub next_id: u64,
}

impl<V> Entities<V> {
    pub open spec fn empty() -> Self {
        Entities { slots: Map::empty(), next_id: 0 }
    }

    /// Every slot has at least one strong share and an identifier that was issued.
    pub open spec fn wf(self) -> bool {
        &&& self.slots.dom().finite()
        &&& forall|k: u64| #[trigger]
            self.slots.contains_key(k) ==> k < self.next_id && self.slots[k].strong >= 1
    }

    /// The entity has a slot.
    pub open spec fn is_live(self, id: EntityId) -> bool {
        self.slots.contains_key(id.0)
    }

    /// The identifier was issued and its slot is gone.
    pub open spec fn is_released(self, id: EntityId) -> bool {
        id.0 < self.next_id && !self.is_live(id)
    }

    pub open spec fn strong_count(self, id: EntityId) -> nat {
        if self.is_live(id) {
            self.slots[id.0].strong as nat
        } else {
            0
        }
    }

    /// The value of the entity is in its slot.
    pub open spec fn is_present(self, id: EntityId) -> bool {
        self.is_live(id) && self.slots[id.0].state is Present
    }

    pub open spec fn is_leased(self, id: EntityId) -> bool {
        self.is_live(id) && self.slots[id.0].state is Leased
    }

    pub open spec fn is_reserved(self, id: EntityId) -> bool {
        self.is_live(id) && self.slots[id.0].state is Reserved
    }

    /// The stored value of a present entity.
    pub open spec fn value(self, id: EntityId) -> V
        recommends
            self.is_present(id),
    {
        self.slots[id.0].state->Present_0
    }

    /// Why a slot cannot be reached under a tag, if it cannot.
    pub open spec fn probe(self, id: EntityId, type_tag: TypeTag) -> Option<Violation> {
        if !self.is_live(id) {
            Some(Violation::Released)
        } else if self.slots[id.0].type_tag != type_tag {
            Some(Violation::TypeMismatch)
        } else {
            None
        }
    }

    /// Why a first value cannot be stored, if it cannot.
    pub open spec fn insert_refusal(self, id: EntityId, type_tag: TypeTag) -> Option<Violation> {
        if self.probe(id, type_tag) is Some {
            self.probe(id, type_tag)
        } else if !self.is_reserved(id) {
            Some(Violation::NotReserved)
        } else {
            None
        }
    }

    /// Why the value cannot be taken out for an update, if it cannot.
    pub open spec fn lease_refusal(self, id: EntityId, type_tag: TypeTag) -> Option<Violation> {
        if self.probe(id, type_tag) is Some {
            self.probe(id, type_tag)
        } else if !self.is_present(id) {
            Some(Violation::Absent)
        } else {
            None
        }
    }

    /// Why a value cannot be put back, if it cannot.
    pub open spec fn restore_refusal(self, id: EntityId, type_tag: TypeTag) -> Option<Violation> {
        if self.probe(id, type_tag) is Some {
            self.probe(id, type_tag)
        } else if !self.is_leased(id) {
            Some(Violation::NotLeased)
        } else {
            None
        }
    }

    /// Why a strong share cannot be given up, if it cannot: the last share
    /// of an entity cannot go while its value is out of the store.
    pub open spec fn release_refusal(self, id: EntityId, type_tag: TypeTag) -> Option<Violation> {
        if self.probe(id, type_tag) is Some {
            self.probe(id, type_tag)
        } else if self.slots[id.0].strong <= 1 && !self.is_present(id) {
            Some(Violation::Absent)
        } else {
            None
        }
    }

    /// The store after a fresh identifier is reserved.
    pub open spec fn reserved(self, type_tag: TypeTag) -> Self {
        Entities {
            slots: self.slots.insert(
                self.next_id,
                Entry { type_tag, strong: 1, state: SlotState::Reserved },
            ),
            next_id: (self.next_id + 1) as u64,
        }
    }

    /// The store after the state of one slot is replaced.
    pub open spec fn with_state(self, id: EntityId, state: SlotState<V>) -> Self {
        Entities {
            slots: self.slots.insert(
                id.0,
                Entry {
                    type_tag: self.slots[id.0].type_tag,
                    strong: self.slots[id.0].strong,
                    state,
                },
            ),
            next_id: self.next_id,
        }
    }

    /// The store after a value is put into a slot.
    pub open spec fn stored(self, id: EntityId, entity: V) -> Self {
        self.with_state(id, SlotState::Present(entity))
    }

    /// The store after the value of a slot is taken out for an update.
    pub open spec fn leased(self, id: EntityId) -> Self {
        self.with_state(id, SlotState::Leased)
    }

    /// The store after one more strong share of a live entity is handed out.
    pub open spec fn shared(self, id: EntityId) -> Self {
        Entities {
            slots: self.slots.insert(
                id.0,
                Entry {
                    type_tag: self.slots[id.0].type_tag,
                    strong: (self.slots[id.0].strong + 1) as usize,
                    state: self.slots[id.0].state,
                },
            ),
            next_id: self.next_id,
        }
    }

    /// The store after one strong share is given up: the slot goes with the
    /// last share.
    pub open spec fn dropped(self, id: EntityId) -> Self {
        if self.slots[id.0].strong <= 1 {
            Entities { slots: self.slots.remove(id.0), next_id: self.next_id }
        } else {
            Entities {
                slots: self.slots.insert(
                    id.0,
                    Entry {
                        type_tag: self.slots[id.0].type_tag,
                        strong: (self.slots[id.0].strong - 1) as usize,
                        state: self.slots[id.0].state,
                    },
                ),
                next_id: self.next_id,
            }
        }
    }

    /// The value that leaves the store when one strong share is given up.
    pub open spec fn departing(self, id: EntityId) -> Option<V> {
        if self.slots[id.0].strong <= 1 {
            Some(self.value(id))
        } else {
            None
        }
    }
}

/// Owns every live entity by identity.
pub struct EntityMap<V> {
    slots: HashMap<u64, Entry<V>>,
    next_id: u64,
}

impl<V> View for EntityMap<V> {
    type V = Entities<V>;

    closed spec fn view(&self) -> Entities<V> {
        Entities { slots: self.slots@, next_id: self.next_id }
    }
}

impl<V> EntityMap<V> {
    pub fn new() -> (store: Self)
        ensures
            store@ == Entities::<V>::empty(),
            store@.wf(),
    {
        EntityMap { slots: HashMap::new(), next_id: 0 }
    }

    /// Whether another identifier can be issued.
    pub fn can_reserve(&self) -> (yes: bool)
        ensures
            yes == (self@.next_id < u64::MAX),
    {
        self.next_id < u64::MAX
    }

    /// Issues a fresh identifier and opens its slot, which waits for the
    /// entity's first value.
    pub fn reserve(&mut self, type_tag: TypeTag) -> (slot: Slot)
        requires
            old(self)@.next_id < u64::MAX,
        ensures
            final(self)@ == old(self)@.reserved(type_tag),
            final(self)@ == old(self)@.apply(StoreOp::Reserve { type_tag }),
            old(self)@.wf() ==> final(self)@.wf() && old(self)@.leads_to(final(self)@),
            slot.id() == EntityId(old(self)@.next_id),
            slot.type_tag() == type_tag,
    {
        proof {
            if self@.wf() {
                self@.lemma_apply_wf(StoreOp::Reserve { type_tag });
                self@.lemma_apply_leads(StoreOp::Reserve { type_tag });
            }
        }
        let id = self.next_id;
        self.slots.insert(id, Entry { type_tag, strong: 1, state: SlotState::Reserved });
        self.next_id = id + 1;
        Slot { id: EntityId(id), type_tag }
    }

    /// Stores the first value of a reserved entity and hands out its first
    /// strong handle.
    pub fn insert(&mut self, slot: Slot, entity: V) -> (r: Result<Handle, Violation>)
        ensures
            old(self)@.wf() ==> final(self)@.wf() && old(self)@.leads_to(final(self)@),
            final(self)@ == old(self)@.apply(
                StoreOp::Insert { id: slot.id(), type_tag: slot.type_tag(), entity },
            ),
            match r {
                Ok(handle) => {
                    &&& old(self)@.insert_refusal(slot.id(), slot.type_tag()) is None
                    &&& final(self)@ == old(self)@.stored(slot.id(), entity)
                    &&& handle.id() == slot.id()
                    &&& handle.type_tag() == slot.type_tag()
                },
                Err(e) => {
                    &&& old(self)@.insert_refusal(slot.id(), slot.type_tag()) == Some(e)
                    &&& final(self)@ == old(self)@
                },
            },
    {
        proof {
            if self@.wf() {
                self@.lemma_apply_wf(StoreOp::Insert { id: slot.id(), type_tag: slot.type_tag(), entity });
                self@.lemma_apply_leads(StoreOp::Insert { id: slot.id(), type_tag: slot.type_tag(), entity });
            }
        }
        let key = slot.id.0;
        match self.slots.remove(&key) {
            None => {
                assert(self@.slots =~= old(self)@.slots);
                Err(Violation::Released)
            },
            Some(entry) => {
                if entry.type_tag != slot.type_tag {
                    self.slots.insert(key, entry);
                    assert(self@.slots =~= old(self)@.slots);
                    Err(Violation::TypeMismatch)
                } else {
                    match entry.state {
                        SlotState::Reserved => {
                            self.slots.insert(
                                key,
                                Entry {
                                    type_tag: entry.type_tag,
                                    strong: entry.strong,
                                    state: SlotState::Present(entity),
                                },
                            );
                            assert(self@.slots =~= old(self)@.stored(slot.id(), entity).slots);
                            Ok(Handle { id: slot.id, type_tag: slot.type_tag })
                        },
                        state => {
                            self.slots.insert(
                                key,
                                Entry { type_tag: entry.type_tag, strong: entry.strong, state },
                            );
                            assert(self@.slots =~= old(self)@.slots);
                            Err(Violation::NotReserved)
                        },
                    }
                }
            },
        }
    }

    /// A weak handle under any identifier, whether or not an entity lives there.
    pub fn weak_handle(&self, id: EntityId, type_tag: TypeTag) -> (weak: WeakHandle)
        ensures
            weak.id == id,
            weak.type_tag == type_tag,
    {
        WeakHandle { id, type_tag }
    }

    /// Whether the entity has a slot.
    pub fn is_live(&self, id: EntityId) -> (live: bool)
        ensures
            live == self@.is_live(id),
    {
        self.slots.contains_key(&id.0)
    }

    /// Whether the value of the entity is in its slot.
    pub fn is_present(&self, id: EntityId) -> (present: bool)
        ensures
            present == self@.is_present(id),
    {
        match self.slots.get(&id.0) {
            None => false,
            Some(entry) => match &entry.state {
                SlotState::Present(_) => true,
                _ => false,
            },
        }
    }

    /// The number of strong shares of the entity; zero when it has no slot.
    pub fn strong_count(&self, id: EntityId) -> (count: usize)
        ensures
            count == self@.strong_count(id),
    {
        match self.slots.get(&id.0) {
            None => 0,
            Some(entry) => entry.strong,
        }
    }

    /// The stored value of the entity, when it is present under this tag.
    pub fn read(&self, handle: &Handle) -> (r: Result<&V, Violation>)
        ensures
            match r {
                Ok(entity) => {
                    &&& self@.lease_refusal(handle.id(), handle.type_tag()) is None
                    &&& *entity == self@.value(handle.id())
                },
                Err(e) => self@.lease_refusal(handle.id(), handle.type_tag()) == Some(e),
            },
    {
        match self.slots.get(&handle.id.0) {
            None => Err(Violation::Released),
            Some(entry) => {
                if entry.type_tag != handle.type_tag {
                    Err(Violation::TypeMismatch)
                } else {
                    match &entry.state {
                        SlotState::Present(entity) => Ok(entity),
                        _ => Err(Violation::Absent),
                    }
                }
            },
        }
    }

    /// Resolves a weak handle: a strong handle when the entity is live, and
    /// nothing when it is not.
    pub fn upgrade(&mut self, weak: &WeakHandle) -> (r: Option<Handle>)
        requires
            old(self)@.strong_count(weak.id) < usize::MAX,
        ensures
            old(self)@.wf() ==> final(self)@.wf() && old(self)@.leads_to(final(self)@),
            final(self)@ == old(self)@.apply(StoreOp::Upgrade { id: weak.id }),
            r is Some <==> old(self)@.is_live(weak.id),
            r matches Some(handle) ==> handle.id() == weak.id && handle.type_tag()
                == weak.type_tag,
            final(self)@ == if old(self)@.is_live(weak.id) {
                old(self)@.shared(weak.id)
            } else {
                old(self)@
            },
    {
        proof {
            if self@.wf() {
                self@.lemma_apply_wf(StoreOp::Upgrade { id: weak.id });
                self@.lemma_apply_leads(StoreOp::Upgrade { id: weak.id });
            }
        }
        let key = weak.id.0;
        match self.slots.remove(&key) {
            None => {
                assert(self@.slots =~= old(self)@.slots);
                None
            },
            Some(entry) => {
                self.slots.insert(
                    key,
                    Entry {
                        type_tag: entry.type_tag,
                        strong: entry.strong + 1,
                        state: entry.state,
                    },
                );
                assert(self@.slots =~= old(self)@.shared(weak.id).slots);
                Some(Handle { id: weak.id, type_tag: weak.type_tag })
            },
        }
    }

    /// Takes the value of an entity out of its slot for the time of an
    /// update. A second attempt on the same entity before the value is back
    /// is refused.
    pub fn lease(&mut self, handle: &Handle) -> (r: Result<Lease<V>, Violation>)
        ensures
            old(self)@.wf() ==> final(self)@.wf() && old(self)@.leads_to(final(self)@),
            final(self)@ == old(self)@.apply(
                StoreOp::Lease { id: handle.id(), type_tag: handle.type_tag() },
            ),
            match r {
                Ok(lease) => {
                    &&& old(self)@.lease_refusal(handle.id(), handle.type_tag()) is None
                    &&& final(self)@ == old(self)@.leased(handle.id())
                    &&& lease.value() == old(self)@.value(handle.id())
                    &&& lease.id() == handle.id()
                    &&& lease.type_tag() == handle.type_tag()
                },
                Err(e) => {
                    &&& old(self)@.lease_refusal(handle.id(), handle.type_tag()) == Some(e)
                    &&& final(self)@ == old(self)@
                },
            },
    {
        proof {
            if self@.wf() {
                self@.lemma_apply_wf(StoreOp::Lease { id: handle.id(), type_tag: handle.type_tag() });
                self@.lemma_apply_leads(StoreOp::Lease { id: handle.id(), type_tag: handle.type_tag() });
            }
        }
        let key = handle.id.0;
        match self.slots.remove(&key) {
            None => {
                assert(self@.slots =~= old(self)@.slots);
                Err(Violation::Released)
            },
            Some(entry) => {
                if entry.type_tag != handle.type_tag {
                    self.slots.insert(key, entry);
                    assert(self@.slots =~= old(self)@.slots);
                    Err(Violation::TypeMismatch)
                } else {
                    match entry.state {
                        SlotState::Present(entity) => {
                            self.slots.insert(
                                key,
                                Entry {
                                    type_tag: entry.type_tag,
                                    strong: entry.strong,
                                    state: SlotState::Leased,
                                },
                            );
                            assert(self@.slots =~= old(self)@.leased(handle.id()).slots);
                            Ok(Lease { entity, id: handle.id, type_tag: handle.type_tag })
                        },
                        state => {
                            self.slots.insert(
                                key,
                                Entry { type_tag: entry.type_tag, strong: entry.strong, state },
                            );
                            assert(self@.slots =~= old(self)@.slots);
                            Err(Violation::Absent)
                        },
                    }
                }
            },
        }
    }

    /// Puts a leased value back into its slot.
    pub fn end_lease(&mut self, lease: Lease<V>) -> (r: Result<(), Violation>)
        ensures
            old(self)@.wf() ==> final(self)@.wf() && old(self)@.leads_to(final(self)@),
            final(self)@ == old(self)@.apply(
                StoreOp::EndLease {
                    id: lease.id(),
                    type_tag: lease.type_tag(),
                    entity: lease.value(),
                },
            ),
            match r {
                Ok(_) => {
                    &&& old(self)@.restore_refusal(lease.id(), lease.type_tag()) is None
                    &&& final(self)@ == old(self)@.stored(lease.id(), lease.value())
                },
                Err(e) => {
                    &&& old(self)@.restore_refusal(lease.id(), lease.type_tag()) == Some(e)
                    &&& final(self)@ == old(self)@
                },
            },
    {
        proof {
            if self@.wf() {
                self@.lemma_apply_wf(StoreOp::EndLease { id: lease.id(), type_tag: lease.type_tag(), entity: lease.value() });
                self@.lemma_apply_leads(StoreOp::EndLease { id: lease.id(), type_tag: lease.type_tag(), entity: lease.value() });
            }
        }
        let key = lease.id.0;
        match self.slots.remove(&key) {
            None => {
                assert(self@.slots =~= old(self)@.slots);
                Err(Violation::Released)
            },
            Some(entry) => {
                if entry.type_tag != lease.type_tag {
                    self.slots.insert(key, entry);
                    assert(self@.slots =~= old(self)@.slots);
                    Err(Violation::TypeMismatch)
                } else {
                    match entry.state {
                        SlotState::Leased => {
                            self.slots.insert(
                                key,
                                Entry {
                                    type_tag: entry.type_tag,
                                    strong: entry.strong,
                                    state: SlotState::Present(lease.entity),
                                },
                            );
                            assert(self@.slots =~= old(self)@.stored(
                                lease.id(),
                                lease.value(),
                            ).slots);
                            Ok(())
                        },
                        state => {
                            self.slots.insert(
                                key,
                                Entry { type_tag: entry.type_tag, strong: entry.strong, state },
                            );
                            assert(self@.slots =~= old(self)@.slots);
                            Err(Violation::NotLeased)
                        },
                    }
                }
            },
        }
    }

    /// Gives up a strong handle. With the last one the slot is removed and
    /// its value is returned.
    pub fn release(&mut self, handle: Handle) -> (r: Result<Option<V>, Violation>)
        ensures
            old(self)@.wf() ==> final(self)@.wf() && old(self)@.leads_to(final(self)@),
            final(self)@ == old(self)@.apply(
                StoreOp::Release { id: handle.id(), type_tag: handle.type_tag() },
            ),
            match r {
                Ok(last) => {
                    &&& old(self)@.release_refusal(handle.id(), handle.type_tag()) is None
                    &&& final(self)@ == old(self)@.dropped(handle.id())
                    &&& last == old(self)@.departing(handle.id())
                },
                Err(e) => {
                    &&& old(self)@.release_refusal(handle.id(), handle.type_tag()) == Some(e)
                    &&& final(self)@ == old(self)@
                },
            },
    {
        proof {
            if self@.wf() {
                self@.lemma_apply_wf(StoreOp::Release { id: handle.id(), type_tag: handle.type_tag() });
                self@.lemma_apply_leads(StoreOp::Release { id: handle.id(), type_tag: handle.type_tag() });
            }
        }
        let key = handle.id.0;
        match self.slots.remove(&key) {
            None => {
                assert(self@.slots =~= old(self)@.slots);
                Err(Violation::Released)
            },
            Some(entry) => {
                if entry.type_tag != handle.type_tag {
                    self.slots.insert(key, entry);
                    assert(self@.slots =~= old(self)@.slots);
                    Err(Violation::TypeMismatch)
                } else if entry.strong > 1 {
                    self.slots.insert(
                        key,
                        Entry {
                            type_tag: entry.type_tag,
                            strong: entry.strong - 1,
                            state: entry.state,
                        },
                    );
                    assert(self@.slots =~= old(self)@.dropped(handle.id()).slots);
                    Ok(None)
                } else {
                    match entry.state {
                        SlotState::Present(entity) => {
                            assert(self@.slots =~= old(self)@.dropped(handle.id()).slots);
                            Ok(Some(entity))
                        },
                        state => {
                            self.slots.insert(
                                key,
                                Entry { type_tag: entry.type_tag, strong: entry.strong, state },
                            );
                            assert(self@.slots =~= old(self)@.slots);
                            Err(Violation::Absent)
                        },
                    }
                }
            },
        }
    }
}


/// One call made on the store, with what the call was given.
pub enum StoreOp<V> {
    /// `reserve`
    Reserve { type_tag: TypeTag },
    /// `insert`
    Insert { id: EntityId, type_tag: TypeTag, entity: V },
    /// `lease`
    Lease { id: EntityId, type_tag: TypeTag },
    /// `end_lease`
    EndLease { id: EntityId, type_tag: TypeTag, entity: V },
    /// `upgrade`
    Upgrade { id: EntityId },
    /// `release`
    Release { id: EntityId, type_tag: TypeTag },
}

impl<V> Entities<V> {
    /// The store after one call: a call that is refused, or that the machine's
    /// limits rule out, changes nothing.
    pub open spec fn apply(self, op: StoreOp<V>) -> Self {
        match op {
            StoreOp::Reserve { type_tag } => if self.next_id < u64::MAX {
                self.reserved(type_tag)
            } else {
                self
            },
            StoreOp::Insert { id, type_tag, entity } => if self.insert_refusal(id, type_tag)
                is None {
                self.stored(id, entity)
            } else {
                self
            },
            StoreOp::Lease { id, type_tag } => if self.lease_refusal(id, type_tag) is None {
                self.leased(id)
            } else {
                self
            },
            StoreOp::EndLease { id, type_tag, entity } => if self.restore_refusal(id, type_tag)
                is None {
                self.stored(id, entity)
            } else {
                self
            },
            StoreOp::Upgrade { id } => if self.is_live(id) && self.strong_count(id)
                < usize::MAX {
                self.shared(id)
            } else {
                self
            },
            StoreOp::Release { id, type_tag } => if self.release_refusal(id, type_tag) is None {
                self.dropped(id)
            } else {
                self
            },
        }
    }

    /// By how much one call changes the number of strong shares of `id` that
    /// exist outside the store: a reservation and a successful upgrade hand
    /// one out, an accepted release takes one back.
    pub open spec fn shares_handed_out(self, op: StoreOp<V>, id: EntityId) -> int {
        match op {
            StoreOp::Reserve { type_tag } => if self.next_id < u64::MAX && id.0
                == self.next_id {
                1
            } else {
                0
            },
            StoreOp::Upgrade { id: target } => if target == id && self.is_live(id)
                && self.strong_count(id) < usize::MAX {
                1
            } else {
                0
            },
            StoreOp::Release { id: target, type_tag } => if target == id
                && self.release_refusal(id, type_tag) is None {
                -1
            } else {
                0
            },
            _ => 0,
        }
    }

    /// The store that a sequence of calls leaves behind, starting empty.
    pub open spec fn after(ops: Seq<StoreOp<V>>) -> Self
        decreases ops.len(),
    {
        if ops.len() == 0 {
            Self::empty()
        } else {
            Self::after(ops.drop_last()).apply(ops.last())
        }
    }

    /// The number of strong shares of `id` that exist after a sequence of
    /// calls: those handed out less those taken back.
    pub open spec fn shares_after(ops: Seq<StoreOp<V>>, id: EntityId) -> int
        decreases ops.len(),
    {
        if ops.len() == 0 {
            0
        } else {
            Self::shares_after(ops.drop_last(), id) + Self::after(
                ops.drop_last(),
            ).shares_handed_out(ops.last(), id)
        }
    }

    /// Every call keeps the store well formed.
    pub proof fn lemma_apply_wf(self, op: StoreOp<V>)
        requires
            self.wf(),
        ensures
            self.apply(op).wf(),
    {
    }

    /// Every call changes the strong count of an entity by exactly the
    /// number of shares it hands out or takes back.
    pub proof fn lemma_apply_counts(self, op: StoreOp<V>, id: EntityId)
        requires
            self.wf(),
        ensures
            self.apply(op).strong_count(id) == self.strong_count(id) + self.shares_handed_out(
                op,
                id,
            ),
    {
    }

    /// Whatever is released in `self` is released in `next`.
    pub open spec fn leads_to(self, next: Self) -> bool {
        forall|id: EntityId| self.is_released(id) ==> #[trigger] next.is_released(id)
    }

    /// No call brings a released entity back: its slot stays gone and its
    /// identifier is not issued again.
    pub proof fn lemma_released_is_final(self, op: StoreOp<V>, id: EntityId)
        requires
            self.wf(),
            self.is_released(id),
        ensures
            self.apply(op).is_released(id),
    {
    }

    /// The same of all released entities at once.
    pub proof fn lemma_apply_leads(self, op: StoreOp<V>)
        requires
            self.wf(),
        ensures
            self.leads_to(self.apply(op)),
    {
        assert forall|id: EntityId| self.is_released(id) implies #[trigger] self.apply(
            op,
        ).is_released(id) by {
            self.lemma_released_is_final(op, id);
        }
    }

    /// While the value of an entity is out of its slot, a further attempt to
    /// take it out is refused, whatever handle is presented, and only putting
    /// the value back ends that state.
    pub proof fn lemma_lease_is_exclusive(self, op: StoreOp<V>, id: EntityId, type_tag: TypeTag)
        requires
            self.wf(),
            self.is_leased(id),
        ensures
            self.lease_refusal(id, type_tag) is Some,
            self.apply(StoreOp::Lease { id, type_tag }) == self,
            !(op is EndLease) ==> self.apply(op).is_leased(id),
    {
    }

    /// After any sequence of calls the store is well formed.
    pub proof fn lemma_after_wf(ops: Seq<StoreOp<V>>)
        ensures
            Self::after(ops).wf(),
        decreases ops.len(),
    {
        if ops.len() > 0 {
            Self::lemma_after_wf(ops.drop_last());
            Self::after(ops.drop_last()).lemma_apply_wf(ops.last());
        }
    }

    /// After any sequence of calls, an entity has a slot exactly when at
    /// least one strong share of it exists, and the store's count is the
    /// number of those shares. An upgrade therefore finds nothing exactly
    /// for an entity without shares.
    pub proof fn lemma_slot_iff_shares(ops: Seq<StoreOp<V>>, id: EntityId)
        ensures
            Self::after(ops).strong_count(id) == Self::shares_after(ops, id),
            Self::after(ops).is_live(id) <==> Self::shares_after(ops, id) >= 1,
            Self::after(ops).apply(StoreOp::Upgrade { id }) == Self::after(ops)
                <== Self::shares_after(ops, id) == 0,
        decreases ops.len(),
    {
        Self::lemma_after_wf(ops);
        if ops.len() > 0 {
            Self::lemma_slot_iff_shares(ops.drop_last(), id);
            Self::lemma_after_wf(ops.drop_last());
            Self::after(ops.drop_last()).lemma_apply_counts(ops.last(), id);
        }
    }

    /// Once an entity is released it stays released through every further
    /// sequence of calls.
    pub proof fn lemma_released_forever(
        ops: Seq<StoreOp<V>>,
        more: Seq<StoreOp<V>>,
        id: EntityId,
    )
        requires
            Self::after(ops).is_released(id),
        ensures
            Self::after(ops + more).is_released(id),
            Self::shares_after(ops + more, id) == 0,
        decreases more.len(),
    {
        if more.len() == 0 {
            assert(ops + more =~= ops);
        } else {
            assert((ops + more).drop_last() =~= ops + more.drop_last());
            assert((ops + more).last() == more.last());
            Self::lemma_released_forever(ops, more.drop_last(), id);
            Self::lemma_after_wf(ops + more.drop_last());
            Self::after(ops + more.drop_last()).lemma_released_is_final(more.last(), id);
        }
        Self::lemma_slot_iff_shares(ops + more, id);
    }
}

} // verus!
