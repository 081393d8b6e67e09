use crate::entity::{EntityId, TypeTag, WeakHandle};
use vstd::prelude::*;

verus! {

/// The kind of relationship a callback is registered under.
#[derive(Clone, Copy, Debug, PartialEq, Eq, Structural)]
pub enum Relation {
    /// Told when the emitter notifies.
    Observe,
    /// Receives the events the emitter sends.
    Subscribe,
    /// Told when the entity is released.
    Release,
}

/// The token of one registration. Handing it back to the runtime removes the
/// callback, which is then never delivered again.
#[derive(Debug)]
pub struct Subscription {
    relation: Relation,
    id: u64,
}

impl Subscription {
    pub closed spec fn relation(&self) -> Relation {
        self.relation
    }

    pub closed spec fn id(&self) -> u64 {
        self.id
    }

    pub(crate) fn new(relation: Relation, id: u64) -> (subscription: Subscription)
        ensures
            subscription.relation() == relation,
            subscription.id() == id,
    {
        Subscription { relation, id }
    }

    pub fn kind(&self) -> (relation: Relation)
        ensures
            relation == self.relation(),
    {
        self.relation
    }

    /// The number under which the callback is registered.
    pub fn number(&self) -> (id: u64)
        ensures
            id == self.id(),
    {
        self.id
    }
}

/// What is kept with a registered callback: whom it runs for, whom it watches
/// and what payload it expects.
pub struct Handler<C> {
    /// The entity on whose behalf the callback runs. `None` for a callback
    /// that an entity registered for its own release.
    pub this: Option<WeakHandle>,
    /// The entity that is watched.
    pub target: WeakHandle,
    /// The type of event that a subscriber expects.
    pub event_type: Option<TypeTag>,
    pub callback: C,
}

/// One registration: its number, the entity it is filed under, and its handler.
pub struct Subscriber<H> {
    pub id: u64,
    pub emitter: EntityId,
    pub handler: H,
}

/// A test on registrations.
pub enum Key {
    /// The registration with this number.
    Id(u64),
    /// Every registration but the one with this number.
    NotId(u64),
    /// The registrations filed under this entity.
    Emitter(EntityId),
    /// The registrations filed under any other entity.
    NotEmitter(EntityId),
}

impl<H> Subscriber<H> {
    pub open spec fn matches(self, key: Key) -> bool {
        match key {
            Key::Id(id) => self.id == id,
            Key::NotId(id) => self.id != id,
            Key::Emitter(emitter) => self.emitter == emitter,
            Key::NotEmitter(emitter) => self.emitter != emitter,
        }
    }
}

/// The registrations that pass a test, in their order.
pub open spec fn select<H>(entries: Seq<Subscriber<H>>, key: Key) -> Seq<Subscriber<H>>
    decreases entries.len(),
{
    if entries.len() == 0 {
        Seq::empty()
    } else if entries.last().matches(key) {
        select(entries.drop_last(), key).push(entries.last())
    } else {
        select(entries.drop_last(), key)
    }
}

/// The numbers rise along the sequence.
pub open spec fn rising<H>(entries: Seq<Subscriber<H>>) -> bool {
    forall|i: int, j: int| 0 <= i < j < entries.len() ==> entries[i].id < entries[j].id
}

/// Every number lies below the bound.
pub open spec fn below<H>(entries: Seq<Subscriber<H>>, bound: u64) -> bool {
    forall|i: int| 0 <= i < entries.len() ==> (#[trigger] entries[i]).id < bound
}

/// Every selected registration passes the test and lies below any bound on
/// the whole sequence.
pub proof fn lemma_select_members<H>(entries: Seq<Subscriber<H>>, key: Key, bound: u64)
    ensures
        forall|k: int|
            0 <= k < select(entries, key).len() ==> (#[trigger] select(entries, key)[k]).matches(
                key,
            ),
        below(entries, bound) ==> below(select(entries, key), bound),
        select(entries, key).len() <= entries.len(),
    decreases entries.len(),
{
    if entries.len() > 0 {
        lemma_select_members(entries.drop_last(), key, bound);
        if below(entries, bound) {
            assert forall|i: int| 0 <= i < entries.drop_last().len() implies (
            #[trigger] entries.drop_last()[i]).id < bound by {
                assert(entries.drop_last()[i] == entries[i]);
            }
        }
    }
}

/// A selection keeps the order of the sequence, so it rises where the
/// sequence does.
pub proof fn lemma_select_rising<H>(entries: Seq<Subscriber<H>>, key: Key)
    requires
        rising(entries),
    ensures
        rising(select(entries, key)),
    decreases entries.len(),
{
    if entries.len() > 0 {
        let front = entries.drop_last();
        assert(rising(front)) by {
            assert forall|i: int, j: int| 0 <= i < j < front.len() implies front[i].id
                < front[j].id by {
                assert(front[i] == entries[i] && front[j] == entries[j]);
            }
        }
        lemma_select_rising(front, key);
        assert(below(front, entries.last().id)) by {
            assert forall|i: int| 0 <= i < front.len() implies (#[trigger] front[i]).id
                < entries.last().id by {
                assert(front[i] == entries[i]);
            }
        }
        lemma_select_members(front, key, entries.last().id);
    }
}

/// A selection is empty exactly when no registration passes the test.
pub proof fn lemma_select_empty<H>(entries: Seq<Subscriber<H>>, key: Key)
    ensures
        select(entries, key).len() == 0 <==> forall|i: int|
            0 <= i < entries.len() ==> !(#[trigger] entries[i]).matches(key),
    decreases entries.len(),
{
    if entries.len() > 0 {
        let front = entries.drop_last();
        lemma_select_empty(front, key);
        if select(entries, key).len() == 0 {
            assert forall|i: int| 0 <= i < entries.len() implies !(#[trigger] entries[i]).matches(
                key,
            ) by {
                if i < front.len() {
                    assert(front[i] == entries[i]);
                }
            }
        } else {
            if forall|i: int| 0 <= i < entries.len() ==> !(#[trigger] entries[i]).matches(key) {
                assert(!entries.last().matches(key));
                assert forall|i: int| 0 <= i < front.len() implies !(#[trigger] front[i]).matches(
                    key,
                ) by {
                    assert(front[i] == entries[i]);
                }
            }
        }
    }
}

/// Every selected registration is one of the sequence.
pub proof fn lemma_select_from<H>(entries: Seq<Subscriber<H>>, key: Key, k: int)
    requires
        0 <= k < select(entries, key).len(),
    ensures
        exists|i: int| 0 <= i < entries.len() && entries[i] == select(entries, key)[k],
    decreases entries.len(),
{
    let front = entries.drop_last();
    if entries.last().matches(key) && k == select(front, key).len() {
        assert(entries[entries.len() - 1] == select(entries, key)[k]);
    } else {
        lemma_select_from(front, key, k);
        let i = choose|i: int| 0 <= i < front.len() && front[i] == select(front, key)[k];
        assert(entries[i] == select(entries, key)[k]);
    }
}

/// Selecting under one test from what passed another finds nothing that the
/// whole sequence does not hold.
pub proof fn lemma_select_narrows<H>(entries: Seq<Subscriber<H>>, first: Key, second: Key)
    requires
        select(entries, second).len() == 0,
    ensures
        select(select(entries, first), second).len() == 0,
{
    let chosen = select(entries, first);
    lemma_select_empty(entries, second);
    assert forall|k: int| 0 <= k < chosen.len() implies !(#[trigger] chosen[k]).matches(
        second,
    ) by {
        lemma_select_from(entries, first, k);
    }
    lemma_select_empty(chosen, second);
}

/// Selecting under one test from what passed another finds everything that
/// the whole sequence holds, where whatever passes the second test passes
/// the first.
pub proof fn lemma_select_keeps<H>(entries: Seq<Subscriber<H>>, first: Key, second: Key)
    requires
        forall|i: int|
            0 <= i < entries.len() && (#[trigger] entries[i]).matches(second)
                ==> entries[i].matches(first),
    ensures
        select(select(entries, first), second) == select(entries, second),
    decreases entries.len(),
{
    if entries.len() > 0 {
        let front = entries.drop_last();
        assert forall|i: int| 0 <= i < front.len() && (#[trigger] front[i]).matches(
            second,
        ) implies front[i].matches(first) by {
            assert(front[i] == entries[i]);
        }
        lemma_select_keeps(front, first, second);
        if entries.last().matches(first) {
            lemma_select_push(select(front, first), entries.last(), second);
        }
    }
}

/// Adding a registration at the end adds it to the selections it passes.
pub proof fn lemma_select_push<H>(entries: Seq<Subscriber<H>>, entry: Subscriber<H>, key: Key)
    ensures
        select(entries.push(entry), key) == if entry.matches(key) {
            select(entries, key).push(entry)
        } else {
            select(entries, key)
        },
{
    assert(entries.push(entry).drop_last() =~= entries);
}

/// The registry of one relationship as a mathematical value: the
/// registrations in the order they were made, and the next number.
pub struct Subscribers<H> {
    pub entries: Seq<Subscriber<H>>,
    pub next_id: u64,
}

impl<H> Subscribers<H> {
    pub open spec fn empty() -> Self {
        Subscribers { entries: Seq::empty(), next_id: 0 }
    }

    /// Numbers rise in the order of registration and were all issued.
    pub open spec fn wf(self) -> bool {
        &&& rising(self.entries)
        &&& below(self.entries, self.next_id)
    }

    /// The callback with this number is registered.
    pub open spec fn contains(self, id: u64) -> bool {
        select(self.entries, Key::Id(id)).len() > 0
    }

    /// The registration with this number.
    pub open spec fn find(self, id: u64) -> Option<Subscriber<H>> {
        if self.contains(id) {
            Some(select(self.entries, Key::Id(id)).last())
        } else {
            None
        }
    }

    /// The registrations filed under an entity, in the order they were made.
    pub open spec fn of(self, emitter: EntityId) -> Seq<Subscriber<H>> {
        select(self.entries, Key::Emitter(emitter))
    }

    /// The numbers of the registrations filed under an entity, in the order
    /// they were made.
    pub open spec fn ids_of(self, emitter: EntityId) -> Seq<u64> {
        Seq::new(self.of(emitter).len(), |i: int| self.of(emitter)[i].id)
    }

    /// The registry after a callback is registered.
    pub open spec fn inserted(self, emitter: EntityId, handler: H) -> Self {
        Subscribers {
            entries: self.entries.push(Subscriber { id: self.next_id, emitter, handler }),
            next_id: (self.next_id + 1) as u64,
        }
    }

    /// The registry after the registrations that fail a test are dropped.
    pub open spec fn kept(self, key: Key) -> Self {
        Subscribers { entries: select(self.entries, key), next_id: self.next_id }
    }

    /// The registry after one callback is removed.
    pub open spec fn removed(self, id: u64) -> Self {
        self.kept(Key::NotId(id))
    }

    /// The registry after everything filed under an entity is removed.
    pub open spec fn without(self, emitter: EntityId) -> Self {
        self.kept(Key::NotEmitter(emitter))
    }

    /// The number was issued and its callback is not registered any more.
    pub open spec fn is_retired(self, id: u64) -> bool {
        id < self.next_id && !self.contains(id)
    }
}

/// One call made on a registry, with what the call was given.
pub enum RegistryOp<H> {
    /// `insert`
    Insert { emitter: EntityId, handler: H },
    /// `remove`
    Remove { id: u64 },
    /// `remove_emitter`
    RemoveEmitter { emitter: EntityId },
}

impl<H> Subscribers<H> {
    /// The registry after one call: a registration that the machine's limits
    /// rule out changes nothing.
    pub open spec fn apply(self, op: RegistryOp<H>) -> Self {
        match op {
            RegistryOp::Insert { emitter, handler } => if self.next_id < u64::MAX {
                self.inserted(emitter, handler)
            } else {
                self
            },
            RegistryOp::Remove { id } => self.removed(id),
            RegistryOp::RemoveEmitter { emitter } => self.without(emitter),
        }
    }

    /// Every call keeps the registry well formed.
    pub proof fn lemma_apply_wf(self, op: RegistryOp<H>)
        requires
            self.wf(),
        ensures
            self.apply(op).wf(),
    {
        match op {
            RegistryOp::Insert { emitter, handler } => {},
            RegistryOp::Remove { id } => {
                lemma_select_rising(self.entries, Key::NotId(id));
                lemma_select_members(self.entries, Key::NotId(id), self.next_id);
            },
            RegistryOp::RemoveEmitter { emitter } => {
                lemma_select_rising(self.entries, Key::NotEmitter(emitter));
                lemma_select_members(self.entries, Key::NotEmitter(emitter), self.next_id);
            },
        }
    }

    /// Callbacks are delivered in the order of registration: the numbers
    /// filed under an entity rise, and a new registration gets a number above
    /// them all and the last place.
    pub proof fn lemma_registration_order(self, emitter: EntityId, handler: H, i: int, j: int)
        requires
            self.wf(),
            0 <= i < j < self.ids_of(emitter).len(),
        ensures
            self.ids_of(emitter)[i] < self.ids_of(emitter)[j],
            self.ids_of(emitter)[j] < self.next_id,
            self.next_id < u64::MAX ==> self.inserted(emitter, handler).ids_of(emitter)
                == self.ids_of(emitter).push(self.next_id),
    {
        lemma_select_rising(self.entries, Key::Emitter(emitter));
        lemma_select_members(self.entries, Key::Emitter(emitter), self.next_id);
        self.lemma_inserted_ids(emitter, handler, emitter);
    }

    /// A registration adds its number at the end of the list of its entity
    /// and leaves the lists of all others as they were.
    pub proof fn lemma_inserted_ids(self, emitter: EntityId, handler: H, other: EntityId)
        ensures
            self.inserted(emitter, handler).ids_of(other) == if other == emitter {
                self.ids_of(other).push(self.next_id)
            } else {
                self.ids_of(other)
            },
    {
        let entry = Subscriber { id: self.next_id, emitter, handler };
        lemma_select_push(self.entries, entry, Key::Emitter(other));
        if other == emitter {
            assert(self.inserted(emitter, handler).ids_of(other) =~= self.ids_of(other).push(
                self.next_id,
            ));
        } else {
            assert(self.inserted(emitter, handler).ids_of(other) =~= self.ids_of(other));
        }
    }

    /// Every number in the list of an entity is the number of a registered
    /// callback: what is not registered is not listed.
    pub proof fn lemma_listed_is_registered(self, emitter: EntityId, i: int)
        requires
            0 <= i < self.ids_of(emitter).len(),
        ensures
            self.contains(self.ids_of(emitter)[i]),
            self.find(self.ids_of(emitter)[i]) is Some,
    {
        let id = self.ids_of(emitter)[i];
        lemma_select_from(self.entries, Key::Emitter(emitter), i);
        let k = choose|k: int|
            0 <= k < self.entries.len() && self.entries[k] == self.of(emitter)[i];
        assert(self.entries[k].matches(Key::Id(id)));
        lemma_select_empty(self.entries, Key::Id(id));
    }

    /// A removed callback is not registered any more.
    pub proof fn lemma_removed_is_gone(self, id: u64)
        ensures
            !self.removed(id).contains(id),
    {
        let rest = select(self.entries, Key::NotId(id));
        lemma_select_members(self.entries, Key::NotId(id), 0);
        lemma_select_empty(rest, Key::Id(id));
    }

    /// After everything filed under an entity is removed, nothing is filed
    /// under it.
    pub proof fn lemma_without_is_empty(self, emitter: EntityId)
        ensures
            self.without(emitter).of(emitter).len() == 0,
            self.without(emitter).ids_of(emitter) == Seq::<u64>::empty(),
    {
        let rest = select(self.entries, Key::NotEmitter(emitter));
        lemma_select_members(self.entries, Key::NotEmitter(emitter), 0);
        lemma_select_empty(rest, Key::Emitter(emitter));
        assert(self.without(emitter).ids_of(emitter) =~= Seq::<u64>::empty());
    }

    /// Removing everything filed under one entity leaves what is filed
    /// under every other entity as it is.
    pub proof fn lemma_without_keeps_others(self, emitter: EntityId, other: EntityId)
        requires
            other != emitter,
        ensures
            self.without(emitter).of(other) == self.of(other),
            self.without(emitter).ids_of(other) == self.ids_of(other),
    {
        lemma_select_keeps(self.entries, Key::NotEmitter(emitter), Key::Emitter(other));
    }

    /// Whatever is retired in `self` is retired in `next`.
    pub open spec fn leads_to(self, next: Self) -> bool {
        forall|id: u64| self.is_retired(id) ==> #[trigger] next.is_retired(id)
    }

    /// The same of all retired callbacks at once.
    pub proof fn lemma_apply_leads(self, op: RegistryOp<H>)
        requires
            self.wf(),
        ensures
            self.leads_to(self.apply(op)),
    {
        assert forall|id: u64| self.is_retired(id) implies #[trigger] self.apply(op).is_retired(
            id,
        ) by {
            self.lemma_retired_is_final(op, id);
        }
    }

    /// No call brings a retired callback back: its number is not issued
    /// again, so it is never found, listed or delivered afterwards.
    pub proof fn lemma_retired_is_final(self, op: RegistryOp<H>, id: u64)
        requires
            self.wf(),
            self.is_retired(id),
        ensures
            self.apply(op).is_retired(id),
            self.apply(op).find(id) is None,
    {
        match op {
            RegistryOp::Insert { emitter, handler } => {
                if self.next_id < u64::MAX {
                    let entry = Subscriber { id: self.next_id, emitter, handler };
                    lemma_select_push(self.entries, entry, Key::Id(id));
                }
            },
            RegistryOp::Remove { id: other } => {
                lemma_select_narrows(self.entries, Key::NotId(other), Key::Id(id));
            },
            RegistryOp::RemoveEmitter { emitter } => {
                lemma_select_narrows(self.entries, Key::NotEmitter(emitter), Key::Id(id));
            },
        }
    }
}

/// The callbacks registered under one relationship, in registration order.
pub struct SubscriberSet<H> {
    entries: Vec<Subscriber<H>>,
    next_id: u64,
}

impl<H> View for SubscriberSet<H> {
    type V = Subscribers<H>;

    closed spec fn view(&self) -> Subscribers<H> {
        Subscribers { entries: self.entries@, next_id: self.next_id }
    }
}

impl<H> SubscriberSet<H> {
    pub fn new() -> (set: Self)
        ensures
            set@ == Subscribers::<H>::empty(),
            set@.wf(),
    {
        SubscriberSet { entries: Vec::new(), next_id: 0 }
    }

    /// Whether another callback can be registered.
    pub fn can_insert(&self) -> (yes: bool)
        ensures
            yes == (self@.next_id < u64::MAX),
    {
        self.next_id < u64::MAX
    }

    /// Registers a callback under an entity, behind all registered before,
    /// and returns its number.
    pub fn insert(&mut self, emitter: EntityId, handler: H) -> (id: u64)
        requires
            old(self)@.next_id < u64::MAX,
        ensures
            id == old(self)@.next_id,
            final(self)@ == old(self)@.inserted(emitter, handler),
            final(self)@ == old(self)@.apply(RegistryOp::Insert { emitter, handler }),
            old(self)@.wf() ==> final(self)@.wf() && old(self)@.leads_to(final(self)@),
    {
        proof {
            if self@.wf() {
                self@.lemma_apply_leads(RegistryOp::Insert { emitter, handler });
            }
        }
        let id = self.next_id;
        self.entries.push(Subscriber { id, emitter, handler });
        self.next_id = id + 1;
        id
    }

    /// Drops every registration that fails the test, keeping the order of
    /// the others.
    fn keep(&mut self, key: &Key)
        ensures
            final(self)@ == old(self)@.kept(*key),
    {
        let ghost initial = self.entries@;
        let mut i: usize = 0;
        let ghost mut seen: int = 0;
        while i < self.entries.len()
            invariant
                self.next_id == old(self).next_id,
                0 <= seen <= initial.len(),
                0 <= i <= self.entries.len(),
                self.entries.len() - i == initial.len() - seen,
                self.entries@.take(i as int) == select(initial.take(seen), *key),
                self.entries@.skip(i as int) == initial.skip(seen),
            decreases self.entries.len() - i,
        {
            let ghost before = self.entries@;
            assert(before[i as int] == before.skip(i as int)[0]);
            assert(initial[seen] == initial.skip(seen)[0]);
            assert(initial.take(seen + 1).drop_last() =~= initial.take(seen));
            assert(initial.take(seen + 1).last() == initial[seen]);
            let pass = match key {
                Key::Id(id) => self.entries[i].id == *id,
                Key::NotId(id) => self.entries[i].id != *id,
                Key::Emitter(emitter) => self.entries[i].emitter == *emitter,
                Key::NotEmitter(emitter) => self.entries[i].emitter != *emitter,
            };
            assert(pass == initial[seen].matches(*key));
            if pass {
                i = i + 1;
                assert(self.entries@.take(i as int) =~= before.take(i - 1).push(before[i - 1]));
                assert(self.entries@.skip(i as int) =~= before.skip(i - 1).skip(1));
                assert(initial.skip(seen + 1) =~= initial.skip(seen).skip(1));
                assert(self.entries@.skip(i as int) =~= initial.skip(seen + 1));
            } else {
                self.entries.remove(i);
                assert(self.entries@.take(i as int) =~= before.take(i as int));
                assert(self.entries@.skip(i as int) =~= before.skip(i as int).skip(1));
                assert(initial.skip(seen + 1) =~= initial.skip(seen).skip(1));
                assert(self.entries@.skip(i as int) =~= initial.skip(seen + 1));
            }
            proof {
                seen = seen + 1;
            }
        }
        assert(self.entries@.take(i as int) =~= self.entries@);
        assert(initial.take(seen) =~= initial);
    }

    /// Removes the callback with this number, if it is registered.
    pub fn remove(&mut self, id: u64)
        ensures
            final(self)@ == old(self)@.removed(id),
            final(self)@ == old(self)@.apply(RegistryOp::Remove { id }),
            !final(self)@.contains(id),
            old(self)@.wf() ==> final(self)@.wf() && old(self)@.leads_to(final(self)@),
    {
        proof {
            self@.lemma_removed_is_gone(id);
            if self@.wf() {
                self@.lemma_apply_wf(RegistryOp::Remove { id });
                self@.lemma_apply_leads(RegistryOp::Remove { id });
            }
        }
        self.keep(&Key::NotId(id));
    }

    /// Removes everything filed under an entity.
    pub fn remove_emitter(&mut self, emitter: EntityId)
        ensures
            final(self)@ == old(self)@.without(emitter),
            final(self)@ == old(self)@.apply(RegistryOp::RemoveEmitter { emitter }),
            final(self)@.ids_of(emitter) == Seq::<u64>::empty(),
            old(self)@.wf() ==> final(self)@.wf() && old(self)@.leads_to(final(self)@),
    {
        proof {
            self@.lemma_without_is_empty(emitter);
            if self@.wf() {
                self@.lemma_apply_wf(RegistryOp::RemoveEmitter { emitter });
                self@.lemma_apply_leads(RegistryOp::RemoveEmitter { emitter });
            }
        }
        self.keep(&Key::NotEmitter(emitter));
    }

    /// The numbers of the callbacks filed under an entity at this moment, in
    /// registration order. Delivery goes by this list: what is registered
    /// later is not in it.
    pub fn snapshot(&self, emitter: EntityId) -> (ids: Vec<u64>)
        ensures
            ids@ == self@.ids_of(emitter),
    {
        let mut ids: Vec<u64> = Vec::new();
        let mut i: usize = 0;
        let ghost key = Key::Emitter(emitter);
        while i < self.entries.len()
            invariant
                0 <= i <= self.entries.len(),
                key == Key::Emitter(emitter),
                ids@.len() == select(self.entries@.take(i as int), key).len(),
                forall|k: int|
                    0 <= k < ids@.len() ==> ids@[k] == select(self.entries@.take(i as int), key)[k].id,
            decreases self.entries.len() - i,
        {
            assert(self.entries@.take(i + 1).drop_last() =~= self.entries@.take(i as int));
            assert(self.entries@.take(i + 1).last() == self.entries@[i as int]);
            if self.entries[i].emitter == emitter {
                ids.push(self.entries[i].id);
            }
            i = i + 1;
        }
        assert(self.entries@.take(i as int) =~= self.entries@);
        assert(ids@ =~= self@.ids_of(emitter));
        ids
    }

    /// The registration with this number, if it is registered.
    pub fn get(&self, id: u64) -> (found: Option<&Subscriber<H>>)
        ensures
            found is Some <==> self@.contains(id),
            found matches Some(entry) ==> self@.find(id) == Some(*entry) && entry.id == id,
    {
        let ghost key = Key::Id(id);
        let mut i: usize = self.entries.len();
        assert(self.entries@.take(i as int) =~= self.entries@);
        while i > 0
            invariant
                0 <= i <= self.entries.len(),
                key == Key::Id(id),
                select(self.entries@, key) == select(self.entries@.take(i as int), key),
            decreases i,
        {
            assert(self.entries@.take(i as int).drop_last() =~= self.entries@.take(i - 1));
            assert(self.entries@.take(i as int).last() == self.entries@[i - 1]);
            i = i - 1;
            if self.entries[i].id == id {
                return Some(&self.entries[i]);
            }
        }
        None
    }

    /// Whether the callback with this number is registered.
    pub fn contains(&self, id: u64) -> (yes: bool)
        ensures
            yes == self@.contains(id),
    {
        self.get(id).is_some()
    }

    /// The number of registered callbacks.
    pub fn len(&self) -> (n: usize)
        ensures
            n == self@.entries.len(),
    {
        self.entries.len()
    }
}

} // verus!
