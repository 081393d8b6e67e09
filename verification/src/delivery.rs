use crate::app::AppContext;
use crate::effect::Effect;
use crate::entity::{EntityId, Handle, TypeTag};
use crate::error::Violation;
use crate::model_context::ModelContext;
use crate::state::{AppState, Flush, Turn};
use crate::subscription::{Handler, Relation};
use vstd::prelude::*;

verus! {

/// What the runtime asks of the callbacks it keeps: to be copied, and to be
/// run in each of the shapes in which the runtime delivers. A callback is
/// registered for one of these shapes and ignores the others. Nothing is
/// assumed of what a callback does with what it is handed.
pub trait Callback<V>: Clone + Sized {
    /// Runs for an observer when the entity it observes has notified. `this`
    /// is the value of the observer, out of the store for the time of the
    /// call.
    fn on_notify(&self, this: &mut V, observed: &Handle, cx: &mut ModelContext<'_, V, Self>);

    /// Runs for a subscriber with an event of the entity it subscribed to.
    fn on_event(
        &self,
        this: &mut V,
        emitter: &Handle,
        event: &V,
        cx: &mut ModelContext<'_, V, Self>,
    );

    /// Runs for an entity that asked to be told of its own release, on the
    /// value that left the store.
    fn on_release(&self, released: &mut V, app: &mut AppContext<V, Self>);

    /// Runs for an entity that watches the release of another, with the
    /// value that left the store.
    fn on_observed_release(
        &self,
        this: &mut V,
        released: &mut V,
        cx: &mut ModelContext<'_, V, Self>,
    );

    /// Runs once, with the runtime, when its turn in the queue has come.
    fn on_defer(self, app: &mut AppContext<V, Self>);
}

/// The callback that does nothing, for a runtime that registers none.
#[derive(Clone, Copy, Debug, PartialEq, Eq)]
pub struct NoCallback;

impl<V> Callback<V> for NoCallback {
    fn on_notify(&self, this: &mut V, observed: &Handle, cx: &mut ModelContext<'_, V, Self>) {
    }

    fn on_event(
        &self,
        this: &mut V,
        emitter: &Handle,
        event: &V,
        cx: &mut ModelContext<'_, V, Self>,
    ) {
    }

    fn on_release(&self, released: &mut V, app: &mut AppContext<V, Self>) {
    }

    fn on_observed_release(
        &self,
        this: &mut V,
        released: &mut V,
        cx: &mut ModelContext<'_, V, Self>,
    ) {
    }

    fn on_defer(self, app: &mut AppContext<V, Self>) {
    }
}

/// What is to be run for one registered callback: the callback, and strong
/// handles to the entities it runs for. The handles go back to the runtime
/// when the callback has returned.
pub struct Delivery<C> {
    /// The number of the registration.
    pub subscription: u64,
    /// The entity to update with the callback. `None` for a callback that
    /// runs on the released entity itself.
    pub this: Option<Handle>,
    /// The entity that notified or sent the event. `None` at a release.
    pub target: Option<Handle>,
    pub callback: C,
}

impl<C> Delivery<C> {
    /// Whether the delivery is the one for a handler: its handles are those
    /// of the handler's entities and its callback is a clone of the
    /// handler's.
    pub open spec fn serves(self, id: u64, handler: Handler<C>, with_target: bool) -> bool
        where C: Clone
    {
        &&& self.subscription == id
        &&& match (self.this, handler.this) {
            (Some(handle), Some(this)) => handle.id() == this.id && handle.type_tag()
                == this.type_tag,
            (None, None) => true,
            _ => false,
        }
        &&& match self.target {
            Some(handle) => with_target && handle.id() == handler.target.id && handle.type_tag()
                == handler.target.type_tag,
            None => !with_target,
        }
        &&& cloned(handler.callback, self.callback)
    }
}

impl<V, C: Clone> AppContext<V, C> {
    /// A copy of the handler registered under a number.
    fn lookup(&self, relation: Relation, id: u64) -> (found: Option<Handler<C>>)
        ensures
            match self@.registry(relation).find(id) {
                None => found is None,
                Some(entry) => {
                    &&& found matches Some(handler)
                    &&& handler.this == entry.handler.this
                    &&& handler.target == entry.handler.target
                    &&& handler.event_type == entry.handler.event_type
                    &&& cloned(entry.handler.callback, handler.callback)
                },
            },
    {
        match self.subscribers(relation).get(id) {
            None => None,
            Some(entry) => Some(
                Handler {
                    this: entry.handler.this,
                    target: entry.handler.target,
                    event_type: entry.handler.event_type,
                    callback: entry.handler.callback.clone(),
                },
            ),
        }
    }

    /// Whether the entities that a handler needs are live.
    fn is_reachable(&self, handler: &Handler<C>, with_target: bool) -> (yes: bool)
        ensures
            yes == self@.reaches(*handler, with_target),
    {
        let this_live = match handler.this {
            Some(this) => self.entities().is_live(this.id),
            None => true,
        };
        this_live && (!with_target || self.entities().is_live(handler.target.id))
    }

    /// Hands out strong handles to the entities of a handler.
    fn lend(&mut self, id: u64, handler: Handler<C>, with_target: bool) -> (delivery: Delivery<C>)
        requires
            old(self)@.reaches(handler, with_target),
            old(self)@.has_room(handler),
        ensures
            final(self)@ == (AppState {
                entities: old(self)@.lent(handler, with_target),
                ..old(self)@
            }),
            old(self)@.wf() ==> final(self)@.wf() && old(self)@.leads_to(final(self)@),
            delivery.subscription == id,
            delivery.callback == handler.callback,
            match (delivery.this, handler.this) {
                (Some(handle), Some(this)) => handle.id() == this.id && handle.type_tag()
                    == this.type_tag,
                (None, None) => true,
                _ => false,
            },
            match delivery.target {
                Some(handle) => with_target && handle.id() == handler.target.id
                    && handle.type_tag() == handler.target.type_tag,
                None => !with_target,
            },
    {
        let this = match handler.this {
            Some(weak) => self.upgrade(&weak),
            None => None,
        };
        let target = if with_target {
            self.upgrade(&handler.target)
        } else {
            None
        };
        Delivery { subscription: id, this, target, callback: handler.callback }
    }

    /// Whether the counts of strong handles leave room to hand out those
    /// that a handler needs.
    fn fits(&self, handler: &Handler<C>) -> (yes: bool)
        ensures
            yes == self@.has_room(*handler),
    {
        let this_fits = match handler.this {
            Some(this) => self.entities().strong_count(this.id) <= usize::MAX - 2,
            None => true,
        };
        this_fits && self.entities().strong_count(handler.target.id) <= usize::MAX - 2
    }

    /// Prepares the delivery of a notification to one observer, by its
    /// number from the snapshot. An observer that was removed since is
    /// passed over. One whose entities are both live is to be called, and
    /// stays registered. One that lost an entity is removed and not called.
    pub fn prepare_notify(&mut self, id: u64) -> (r: Result<Option<Delivery<C>>, Violation>)
        ensures
            old(self)@.wf() ==> final(self)@.wf() && old(self)@.leads_to(final(self)@),
            match old(self)@.observers.find(id) {
                None => r == Ok::<Option<Delivery<C>>, Violation>(None) && final(self)@ == old(
                    self,
                )@,
                Some(entry) => if !old(self)@.reaches(entry.handler, true) {
                    &&& r == Ok::<Option<Delivery<C>>, Violation>(None)
                    &&& final(self)@ == (AppState {
                        observers: old(self)@.observers.removed(id),
                        ..old(self)@
                    })
                } else if !old(self)@.has_room(entry.handler) {
                    &&& r == Err::<Option<Delivery<C>>, Violation>(Violation::TooManyHandles)
                    &&& final(self)@ == old(self)@
                } else {
                    &&& r matches Ok(Some(delivery))
                    &&& delivery.serves(id, entry.handler, true)
                    &&& final(self)@ == (AppState {
                        entities: old(self)@.lent(entry.handler, true),
                        ..old(self)@
                    })
                },
            },
    {
        match self.lookup(Relation::Observe, id) {
            None => Ok(None),
            Some(handler) => {
                if !self.is_reachable(&handler, true) {
                    self.retire(Relation::Observe, id);
                    Ok(None)
                } else if !self.fits(&handler) {
                    Err(Violation::TooManyHandles)
                } else {
                    Ok(Some(self.lend(id, handler, true)))
                }
            },
        }
    }

    /// Prepares the delivery of an event to one subscriber, by its number
    /// from the snapshot. A subscriber registered for another type of event
    /// is a violation. Otherwise as for a notification.
    pub fn prepare_event(&mut self, id: u64, event_type: TypeTag) -> (r: Result<
        Option<Delivery<C>>,
        Violation,
    >)
        ensures
            old(self)@.wf() ==> final(self)@.wf() && old(self)@.leads_to(final(self)@),
            match old(self)@.event_handlers.find(id) {
                None => r == Ok::<Option<Delivery<C>>, Violation>(None) && final(self)@ == old(
                    self,
                )@,
                Some(entry) => if entry.handler.event_type != Some(event_type) {
                    &&& r == Err::<Option<Delivery<C>>, Violation>(Violation::EventTypeMismatch)
                    &&& final(self)@ == old(self)@
                } else if !old(self)@.reaches(entry.handler, true) {
                    &&& r == Ok::<Option<Delivery<C>>, Violation>(None)
                    &&& final(self)@ == (AppState {
                        event_handlers: old(self)@.event_handlers.removed(id),
                        ..old(self)@
                    })
                } else if !old(self)@.has_room(entry.handler) {
                    &&& r == Err::<Option<Delivery<C>>, Violation>(Violation::TooManyHandles)
                    &&& final(self)@ == old(self)@
                } else {
                    &&& r matches Ok(Some(delivery))
                    &&& delivery.serves(id, entry.handler, true)
                    &&& final(self)@ == (AppState {
                        entities: old(self)@.lent(entry.handler, true),
                        ..old(self)@
                    })
                },
            },
    {
        match self.lookup(Relation::Subscribe, id) {
            None => Ok(None),
            Some(handler) => {
                let expected = match handler.event_type {
                    Some(expected) => expected == event_type,
                    None => false,
                };
                if !expected {
                    Err(Violation::EventTypeMismatch)
                } else if !self.is_reachable(&handler, true) {
                    self.retire(Relation::Subscribe, id);
                    Ok(None)
                } else if !self.fits(&handler) {
                    Err(Violation::TooManyHandles)
                } else {
                    Ok(Some(self.lend(id, handler, true)))
                }
            },
        }
    }

    /// Prepares the delivery of a release to one watcher, by its number from
    /// the snapshot. A watcher registered for an entity of another type is
    /// a violation. A callback that the released entity registered for
    /// itself is to be called; one that another entity registered is to be
    /// called while that entity is live, and passed over when it is not.
    pub fn prepare_release(&mut self, id: u64, entity_type: TypeTag) -> (r: Result<
        Option<Delivery<C>>,
        Violation,
    >)
        ensures
            old(self)@.wf() ==> final(self)@.wf() && old(self)@.leads_to(final(self)@),
            match old(self)@.release_handlers.find(id) {
                None => r == Ok::<Option<Delivery<C>>, Violation>(None) && final(self)@ == old(
                    self,
                )@,
                Some(entry) => if entry.handler.target.type_tag != entity_type {
                    &&& r == Err::<Option<Delivery<C>>, Violation>(Violation::TypeMismatch)
                    &&& final(self)@ == old(self)@
                } else if !old(self)@.reaches(entry.handler, false) {
                    &&& r == Ok::<Option<Delivery<C>>, Violation>(None)
                    &&& final(self)@ == old(self)@
                } else if !old(self)@.has_room(entry.handler) {
                    &&& r == Err::<Option<Delivery<C>>, Violation>(Violation::TooManyHandles)
                    &&& final(self)@ == old(self)@
                } else {
                    &&& r matches Ok(Some(delivery))
                    &&& delivery.serves(id, entry.handler, false)
                    &&& final(self)@ == (AppState {
                        entities: old(self)@.lent(entry.handler, false),
                        ..old(self)@
                    })
                },
            },
    {
        match self.lookup(Relation::Release, id) {
            None => Ok(None),
            Some(handler) => {
                if handler.target.type_tag != entity_type {
                    Err(Violation::TypeMismatch)
                } else if !self.is_reachable(&handler, false) {
                    Ok(None)
                } else if !self.fits(&handler) {
                    Err(Violation::TooManyHandles)
                } else {
                    Ok(Some(self.lend(id, handler, false)))
                }
            },
        }
    }
}

/// The numbers of `ids` whose turn ran a callback, in their order: those
/// for which `outcomes` holds `Ok(true)`.
pub open spec fn ran(ids: Seq<u64>, outcomes: Seq<Result<bool, Violation>>) -> Seq<u64>
    decreases outcomes.len(),
{
    if outcomes.len() == 0 {
        Seq::empty()
    } else if outcomes.last() == Ok::<bool, Violation>(true) {
        ran(ids, outcomes.drop_last()).push(ids[outcomes.len() - 1])
    } else {
        ran(ids, outcomes.drop_last())
    }
}

/// Where every turn that was taken ran its callback, the callbacks that ran
/// are those of the list as far as the turns went, each once, in the order
/// of their registration.
pub proof fn lemma_every_turn_ran(ids: Seq<u64>, outcomes: Seq<Result<bool, Violation>>)
    requires
        outcomes.len() <= ids.len(),
        forall|k: int|
            0 <= k < outcomes.len() ==> #[trigger] outcomes[k] == Ok::<bool, Violation>(true),
    ensures
        ran(ids, outcomes) == ids.take(outcomes.len() as int),
    decreases outcomes.len(),
{
    if outcomes.len() > 0 {
        let before = outcomes.drop_last();
        assert forall|k: int| 0 <= k < before.len() implies #[trigger] before[k] == Ok::<
            bool,
            Violation,
        >(true) by {
            assert(before[k] == outcomes[k]);
        }
        lemma_every_turn_ran(ids, before);
        assert(outcomes.last() == outcomes[outcomes.len() - 1]);
        assert(ids.take(outcomes.len() as int) =~= ids.take(before.len() as int).push(
            ids[outcomes.len() - 1],
        ));
    } else {
        assert(ids.take(0) =~= Seq::<u64>::empty());
    }
}

/// Where no turn that was taken ran a callback, none ran.
pub proof fn lemma_no_turn_ran(ids: Seq<u64>, outcomes: Seq<Result<bool, Violation>>)
    requires
        forall|k: int|
            0 <= k < outcomes.len() ==> #[trigger] outcomes[k] != Ok::<bool, Violation>(true),
    ensures
        ran(ids, outcomes) == Seq::<u64>::empty(),
    decreases outcomes.len(),
{
    if outcomes.len() > 0 {
        let before = outcomes.drop_last();
        assert forall|k: int| 0 <= k < before.len() implies #[trigger] before[k] != Ok::<
            bool,
            Violation,
        >(true) by {
            assert(before[k] == outcomes[k]);
        }
        lemma_no_turn_ran(ids, before);
        assert(outcomes.last() == outcomes[outcomes.len() - 1]);
    }
}

/// `states` holds the state of the runtime before the first turn and after
/// each turn, `outcomes` what each turn came to.
pub open spec fn taken<V, C, T>(states: Seq<AppState<V, C>>, outcomes: Seq<T>) -> bool {
    states.len() == outcomes.len() + 1
}

/// `states` and `values` hold the state of the runtime and the value that
/// left the store before the first turn and after each turn, `outcomes`
/// what each turn came to.
pub open spec fn taken_with<V, C, T>(
    states: Seq<AppState<V, C>>,
    values: Seq<V>,
    outcomes: Seq<T>,
) -> bool {
    states.len() == outcomes.len() + 1 && values.len() == states.len()
}

/// `k` is the place of one of the turns that were taken.
pub open spec fn is_turn<T>(outcomes: Seq<T>, k: int) -> bool {
    0 <= k < outcomes.len()
}

/// The effect with which the step at place `k` of a flush goes on: the one
/// the flush was given, for the first step, and the one the step before
/// handed out, for every other.
pub open spec fn handed<V, C>(
    next: Option<Effect<V, C>>,
    outcomes: Seq<Result<Option<Effect<V, C>>, Violation>>,
    k: int,
) -> Option<Effect<V, C>> {
    if k == 0 {
        next
    } else {
        match outcomes[k - 1] {
            Ok(rest) => rest,
            Err(_) => None,
        }
    }
}

/// Whether a dispatch that took the turns with these outcomes returns `r`:
/// only the last turn may have failed, and its violation is returned; with
/// every turn of the list taken and none failed, the numbers whose
/// callbacks ran are returned.
pub open spec fn reports(
    ids: Seq<u64>,
    outcomes: Seq<Result<bool, Violation>>,
    r: Result<Vec<u64>, Violation>,
) -> bool {
    &&& outcomes.len() <= ids.len()
    &&& forall|k: int| 0 <= k < outcomes.len() - 1 ==> (#[trigger] outcomes[k]) is Ok
    &&& match r {
        Ok(called) => {
            &&& outcomes.len() == ids.len()
            &&& outcomes.len() > 0 ==> outcomes.last() is Ok
            &&& called@ == ran(ids, outcomes)
        },
        Err(e) => outcomes.len() > 0 && outcomes.last() == Err::<bool, Violation>(e),
    }
}

/// The numbers in `delivered` are numbers of `listed`, in the order in which
/// `listed` has them, each place of `listed` taken at most once.
pub open spec fn in_order_of(delivered: Seq<u64>, listed: Seq<u64>) -> bool {
    exists|places: Seq<int>| #[trigger] picks(delivered, listed, places)
}

/// `places` gives for each number of `delivered` a place in `listed` that
/// holds it, and these places rise.
pub open spec fn picks(delivered: Seq<u64>, listed: Seq<u64>, places: Seq<int>) -> bool {
    &&& places.len() == delivered.len()
    &&& forall|k: int|
        0 <= k < places.len() ==> 0 <= #[trigger] places[k] < listed.len() && delivered[k]
            == listed[places[k]]
    &&& forall|j: int, k: int| 0 <= j < k < places.len() ==> places[j] < places[k]
}

/// Calls a callback as an observer, and records with what it was called.
fn run_notify<V, C: Callback<V>>(
    callback: &C,
    this: &mut V,
    observed: &Handle,
    cx: &mut ModelContext<'_, V, C>,
)
    ensures
        exists|value: &mut V, context: &mut ModelContext<'_, V, C>|
            {
                &&& *value == *old(this)
                &&& *context == *old(cx)
                &&& #[trigger] call_ensures(C::on_notify, (callback, value, observed, context), ())
                &&& *final(value) == *final(this)
                &&& *final(context) == *final(cx)
            },
{
    callback.on_notify(this, observed, cx)
}

/// Calls a callback as a subscriber, and records with what it was called.
fn run_event<V, C: Callback<V>>(
    callback: &C,
    this: &mut V,
    emitter: &Handle,
    event: &V,
    cx: &mut ModelContext<'_, V, C>,
)
    ensures
        exists|value: &mut V, context: &mut ModelContext<'_, V, C>|
            {
                &&& *value == *old(this)
                &&& *context == *old(cx)
                &&& #[trigger] call_ensures(
                    C::on_event,
                    (callback, value, emitter, event, context),
                    (),
                )
                &&& *final(value) == *final(this)
                &&& *final(context) == *final(cx)
            },
{
    callback.on_event(this, emitter, event, cx)
}

/// Calls a callback on the value of the entity that registered it for its
/// own release, and records with what it was called.
fn run_release<V, C: Callback<V>>(callback: &C, released: &mut V, app: &mut AppContext<V, C>)
    ensures
        exists|value: &mut V, runtime: &mut AppContext<V, C>|
            {
                &&& *value == *old(released)
                &&& *runtime == *old(app)
                &&& #[trigger] call_ensures(C::on_release, (callback, value, runtime), ())
                &&& *final(value) == *final(released)
                &&& *final(runtime) == *final(app)
            },
{
    callback.on_release(released, app)
}

/// Calls a callback as a watcher of a release, and records with what it was
/// called.
fn run_observed_release<V, C: Callback<V>>(
    callback: &C,
    this: &mut V,
    released: &mut V,
    cx: &mut ModelContext<'_, V, C>,
)
    ensures
        exists|value: &mut V, gone: &mut V, context: &mut ModelContext<'_, V, C>|
            {
                &&& *value == *old(this)
                &&& *gone == *old(released)
                &&& *context == *old(cx)
                &&& #[trigger] call_ensures(
                    C::on_observed_release,
                    (callback, value, gone, context),
                    (),
                )
                &&& *final(value) == *final(this)
                &&& *final(gone) == *final(released)
                &&& *final(context) == *final(cx)
            },
{
    callback.on_observed_release(this, released, cx)
}

impl<V, C: Callback<V>> AppContext<V, C> {
    /// Gives the handles of a delivery back to the runtime, first the one
    /// of the entity the callback runs for, then the one of the entity
    /// watched. Reports the first refusal.
    fn give_back(&mut self, this: Option<Handle>, target: Option<Handle>) -> (r: Result<
        (),
        Violation,
    >)
        ensures
            final(self)@ == old(self)@.given_back(this, target),
            match old(self)@.give_back_outcome(this, target) {
                Ok(_) => r is Ok,
                Err(e) => r == Err::<(), Violation>(e),
            },
            old(self)@.wf() ==> final(self)@.wf() && old(self)@.leads_to(final(self)@),
    {
        let ghost start = self@;
        let first = match this {
            Some(handle) => self.release(handle),
            None => Ok(()),
        };
        let ghost between = self@;
        let second = match target {
            Some(handle) => self.release(handle),
            None => Ok(()),
        };
        proof {
            if start.wf() {
                start.lemma_leads_to_is_an_order(between, self@);
            }
        }
        match first {
            Err(e) => Err(e),
            Ok(_) => second,
        }
    }

    /// Runs the callback of a delivery on the entity it runs for: takes the
    /// value of that entity out of the store, calls the callback with it and
    /// with a context of the entity, puts the value back and gives the
    /// handles of the delivery back. With an event the callback is called
    /// as a subscriber, without one as an observer. Returns whether the
    /// callback was called: a delivery that names no entity to run for is
    /// not, and only gives its handles back. Where the entity to run on is
    /// out of the store, the callback is not called and nothing changes.
    pub fn deliver(&mut self, delivery: Delivery<C>, event: Option<&V>) -> (r: Result<
        bool,
        Violation,
    >)
        ensures
            match (delivery.this, delivery.target) {
                (Some(this), Some(target)) => match old(self)@.entities.lease_refusal(
                    this.id(),
                    this.type_tag(),
                ) {
                    Some(e) => r == Err::<bool, Violation>(e) && final(self)@ == old(self)@,
                    None => exists|entity: &mut V, cx: &mut ModelContext<'_, V, C>|
                        #![trigger call_ensures(C::on_notify, (&delivery.callback, entity, &target, cx), ())]
                        #![trigger call_ensures(C::on_event, (&delivery.callback, entity, &target, event->Some_0, cx), ())]
                        {
                            &&& *entity == old(self)@.entities.value(this.id())
                            &&& cx.entity_id == this.id()
                            &&& cx.entity_type == this.type_tag()
                            &&& cx.app@ == (AppState {
                                entities: old(self)@.entities.leased(this.id()),
                                ..old(self)@
                            })
                            &&& event is None ==> call_ensures(
                                C::on_notify,
                                (&delivery.callback, entity, &target, cx),
                                (),
                            )
                            &&& event is Some ==> call_ensures(
                                C::on_event,
                                (&delivery.callback, entity, &target, event->Some_0, cx),
                                (),
                            )
                            &&& (*final(final(cx).app) == *final(cx.app)) ==> ((*final(cx.app))@
                                == final(cx).app@)
                            &&& final(self)@ == (*final(cx.app))@.settled(
                                *final(entity),
                                this,
                                Some(this),
                                Some(target),
                            ).0
                            &&& match (*final(cx.app))@.settled(
                                *final(entity),
                                this,
                                Some(this),
                                Some(target),
                            ).1 {
                                Ok(_) => r == Ok::<bool, Violation>(true),
                                Err(e) => r == Err::<bool, Violation>(e),
                            }
                        },
                },
                (this, target) => {
                    &&& final(self)@ == old(self)@.given_back(this, target)
                    &&& match old(self)@.give_back_outcome(this, target) {
                        Ok(_) => r == Ok::<bool, Violation>(false),
                        Err(e) => r == Err::<bool, Violation>(e),
                    }
                },
            },
    {
        let Delivery { subscription: _, this, target, callback } = delivery;
        match (this, target) {
            (Some(this), Some(target)) => {
                match self.lease(&this) {
                    Err(e) => Err(e),
                    Ok(mut lease) => {
                        let mut cx = ModelContext::mutable(
                            self,
                            this.entity_id(),
                            this.entity_type(),
                        );
                        match event {
                            None => run_notify(&callback, lease.entity_mut(), &target, &mut cx),
                            Some(event) => run_event(
                                &callback,
                                lease.entity_mut(),
                                &target,
                                event,
                                &mut cx,
                            ),
                        }
                        match self.end_lease(lease) {
                            Err(e) => Err(e),
                            Ok(_) => match self.give_back(Some(this), Some(target)) {
                                Err(e) => Err(e),
                                Ok(_) => Ok(true),
                            },
                        }
                    },
                }
            },
            (this, target) => match self.give_back(this, target) {
                Err(e) => Err(e),
                Ok(_) => Ok(false),
            },
        }
    }

    /// Runs the callback of a delivery for a release, with the value that
    /// left the store: on that value itself for a callback that the released
    /// entity registered, on the watching entity for one that another
    /// registered. The value of the watching entity is out of the store for
    /// the time of the call; afterwards the handles of the delivery go back
    /// to the runtime. Where the watching entity is out of the store
    /// already, the callback is not called and nothing changes.
    pub fn deliver_release(&mut self, delivery: Delivery<C>, released: &mut V) -> (r: Result<
        (),
        Violation,
    >)
        ensures
            match delivery.this {
                None => exists|value: &mut V, app: &mut AppContext<V, C>|
                    {
                        &&& *value == *old(released)
                        &&& app@ == old(self)@
                        &&& #[trigger] call_ensures(
                            C::on_release,
                            (&delivery.callback, value, app),
                            (),
                        )
                        &&& *final(released) == *final(value)
                        &&& final(self)@ == final(app)@.given_back(None, delivery.target)
                        &&& match final(app)@.give_back_outcome(None, delivery.target) {
                            Ok(_) => r is Ok,
                            Err(e) => r == Err::<(), Violation>(e),
                        }
                    },
                Some(watcher) => match old(self)@.entities.lease_refusal(
                    watcher.id(),
                    watcher.type_tag(),
                ) {
                    Some(e) => {
                        &&& r == Err::<(), Violation>(e)
                        &&& final(self)@ == old(self)@
                        &&& *final(released) == *old(released)
                    },
                    None => exists|entity: &mut V, value: &mut V, cx: &mut ModelContext<'_, V, C>|
                        {
                            &&& *entity == old(self)@.entities.value(watcher.id())
                            &&& *value == *old(released)
                            &&& cx.entity_id == watcher.id()
                            &&& cx.entity_type == watcher.type_tag()
                            &&& cx.app@ == (AppState {
                                entities: old(self)@.entities.leased(watcher.id()),
                                ..old(self)@
                            })
                            &&& #[trigger] call_ensures(
                                C::on_observed_release,
                                (&delivery.callback, entity, value, cx),
                                (),
                            )
                            &&& *final(released) == *final(value)
                            &&& (*final(final(cx).app) == *final(cx.app)) ==> ((*final(cx.app))@
                                == final(cx).app@)
                            &&& final(self)@ == (*final(cx.app))@.settled(
                                *final(entity),
                                watcher,
                                Some(watcher),
                                delivery.target,
                            ).0
                            &&& match (*final(cx.app))@.settled(
                                *final(entity),
                                watcher,
                                Some(watcher),
                                delivery.target,
                            ).1 {
                                Ok(_) => r is Ok,
                                Err(e) => r == Err::<(), Violation>(e),
                            }
                        },
                },
            },
    {
        let Delivery { subscription: _, this, target, callback } = delivery;
        match this {
            None => {
                run_release(&callback, released, self);
                self.give_back(None, target)
            },
            Some(watcher) => match self.lease(&watcher) {
                Err(e) => Err(e),
                Ok(mut lease) => {
                    let mut cx = ModelContext::mutable(
                        self,
                        watcher.entity_id(),
                        watcher.entity_type(),
                    );
                    run_observed_release(&callback, lease.entity_mut(), released, &mut cx);
                    match self.end_lease(lease) {
                        Err(e) => Err(e),
                        Ok(_) => self.give_back(Some(watcher), target),
                    }
                },
            },
        }
    }

    /// Takes the turn of one observer or subscriber, by its number from the
    /// list: prepares the delivery and, where there is one, runs it. With
    /// the type of an event and the event, the turn is that of a
    /// subscriber; otherwise that of an observer. Returns whether a
    /// callback was run.
    pub fn take_turn(&mut self, id: u64, event_type: Option<TypeTag>, event: Option<&V>) -> (r:
        Result<bool, Violation>)
        ensures
            match old(self)@.turn(
                Self::relation_of(event_type, event),
                id,
                Self::payload_of(event_type, event),
            ) {
                Turn::Pass(end) => r == Ok::<bool, Violation>(false) && final(self)@ == end,
                Turn::Stop(e, end) => r == Err::<bool, Violation>(e) && final(self)@ == end,
                Turn::Deliver => exists|app: &mut AppContext<V, C>, delivery: Delivery<C>|
                    {
                        &&& delivery.serves(
                            id,
                            old(self)@.registry(Self::relation_of(event_type, event)).find(
                                id,
                            )->Some_0.handler,
                            true,
                        )
                        &&& app@ == (AppState {
                            entities: old(self)@.lent(
                                old(self)@.registry(Self::relation_of(event_type, event)).find(
                                    id,
                                )->Some_0.handler,
                                true,
                            ),
                            ..old(self)@
                        })
                        &&& #[trigger] call_ensures(
                            AppContext::<V, C>::deliver,
                            (app, delivery, Self::event_of(event_type, event)),
                            r,
                        )
                        &&& final(app)@ == final(self)@
                    },
            },
    {
        match (event_type, event) {
            (Some(event_type), Some(event)) => match self.prepare_event(id, event_type) {
                Err(e) => Err(e),
                Ok(None) => Ok(false),
                Ok(Some(delivery)) => self.deliver(delivery, Some(event)),
            },
            _ => match self.prepare_notify(id) {
                Err(e) => Err(e),
                Ok(None) => Ok(false),
                Ok(Some(delivery)) => self.deliver(delivery, None),
            },
        }
    }

    /// The relationship whose turn `take_turn` takes.
    pub open spec fn relation_of(event_type: Option<TypeTag>, event: Option<&V>) -> Relation {
        if event_type is Some && event is Some {
            Relation::Subscribe
        } else {
            Relation::Observe
        }
    }

    /// The type of event that the callback of the turn has to expect.
    pub open spec fn payload_of(event_type: Option<TypeTag>, event: Option<&V>) -> Option<
        TypeTag,
    > {
        if event_type is Some && event is Some {
            event_type
        } else {
            None
        }
    }

    /// The event that the callback of the turn is handed.
    pub open spec fn event_of(event_type: Option<TypeTag>, event: Option<&V>) -> Option<&V> {
        if event_type is Some && event is Some {
            event
        } else {
            None
        }
    }

    /// Takes the turn of one watcher of a release, by its number from the
    /// list: prepares the delivery and, where there is one, runs it with the
    /// value that left the store. Returns whether a callback was run.
    pub fn take_release_turn(&mut self, id: u64, entity_type: TypeTag, released: &mut V) -> (r:
        Result<bool, Violation>)
        ensures
            match old(self)@.turn(Relation::Release, id, Some(entity_type)) {
                Turn::Pass(end) => {
                    &&& r == Ok::<bool, Violation>(false)
                    &&& final(self)@ == end
                    &&& *final(released) == *old(released)
                },
                Turn::Stop(e, end) => {
                    &&& r == Err::<bool, Violation>(e)
                    &&& final(self)@ == end
                    &&& *final(released) == *old(released)
                },
                Turn::Deliver => exists|
                    app: &mut AppContext<V, C>,
                    delivery: Delivery<C>,
                    value: &mut V,
                    ran: Result<(), Violation>,
                |
                    {
                        &&& delivery.serves(
                            id,
                            old(self)@.release_handlers.find(id)->Some_0.handler,
                            false,
                        )
                        &&& app@ == (AppState {
                            entities: old(self)@.lent(
                                old(self)@.release_handlers.find(id)->Some_0.handler,
                                false,
                            ),
                            ..old(self)@
                        })
                        &&& *value == *old(released)
                        &&& #[trigger] call_ensures(
                            AppContext::<V, C>::deliver_release,
                            (app, delivery, value),
                            ran,
                        )
                        &&& final(app)@ == final(self)@
                        &&& *final(value) == *final(released)
                        &&& match ran {
                            Ok(_) => r == Ok::<bool, Violation>(true),
                            Err(e) => r == Err::<bool, Violation>(e),
                        }
                    },
            },
    {
        match self.prepare_release(id, entity_type) {
            Err(e) => Err(e),
            Ok(None) => Ok(false),
            Ok(Some(delivery)) => match self.deliver_release(delivery, released) {
                Err(e) => Err(e),
                Ok(_) => Ok(true),
            },
        }
    }

    /// Dispatches a notification: takes the list of the emitter's observers
    /// as it stands, and takes the turn of each in the order of
    /// registration: the delivery is prepared at its turn and, where there
    /// is one, the callback is run on the observer. Returns the numbers of
    /// the observers whose callbacks were run, in the order of the runs.
    /// What is registered while the dispatch runs is not run by it. A
    /// violation ends the dispatch. As long as no delivery is prepared, the
    /// runtime alone decides what happens: the dispatch succeeds with no
    /// callback run, or ends with the first violation.
    pub fn dispatch_notify(&mut self, emitter: EntityId) -> (r: Result<Vec<u64>, Violation>)
        ensures
            r matches Ok(called) ==> in_order_of(called@, old(self)@.observers.ids_of(emitter)),
            match old(self)@.dispatched(Effect::Notify { emitter }) {
                Turn::Pass(end) => r matches Ok(called) && called@.len() == 0 && final(self)@
                    == end,
                Turn::Stop(e, end) => r == Err::<Vec<u64>, Violation>(e) && final(self)@ == end,
                Turn::Deliver => true,
            },
            exists|states: Seq<AppState<V, C>>, outcomes: Seq<Result<bool, Violation>>|
                {
                    &&& #[trigger] taken(states, outcomes)
                    &&& states[0] == old(self)@
                    &&& states.last() == final(self)@
                    &&& reports(old(self)@.observers.ids_of(emitter), outcomes, r)
                    &&& forall|k: int|
                        #![trigger is_turn(outcomes, k)]
                        is_turn(outcomes, k) ==> exists|app: &mut AppContext<V, C>|
                            {
                                &&& app@ == states[k]
                                &&& #[trigger] call_ensures(
                                    AppContext::<V, C>::take_turn,
                                    (app, old(self)@.observers.ids_of(emitter)[k], None, None),
                                    outcomes[k],
                                )
                                &&& final(app)@ == states[k + 1]
                            }
                },
    {
        let ghost start = self@;
        let ids = self.snapshot(Relation::Observe, emitter);
        let mut called: Vec<u64> = Vec::new();
        let ghost mut places: Seq<int> = Seq::empty();
        let ghost mut quiet = true;
        let ghost mut states: Seq<AppState<V, C>> = seq![start];
        let ghost mut outcomes: Seq<Result<bool, Violation>> = Seq::empty();
        let mut i: usize = 0;
        while i < ids.len()
            invariant
                0 <= i <= ids.len(),
                start == old(self)@,
                ids@ == start.observers.ids_of(emitter),
                picks(called@, ids@.take(i as int), places),
                quiet ==> start.passed(Relation::Observe, ids@.take(i as int), None)
                    == Turn::Pass(self@) && called@.len() == 0,
                !quiet ==> start.passed(Relation::Observe, ids@.take(i as int), None) is Deliver,
                taken(states, outcomes),
                outcomes.len() == i,
                states[0] == start,
                states.last() == self@,
                called@ == ran(ids@, outcomes),
                forall|k: int| 0 <= k < i ==> (#[trigger] outcomes[k]) is Ok,
                forall|k: int|
                    #![trigger is_turn(outcomes, k)]
                    is_turn(outcomes, k) ==> exists|app: &mut AppContext<V, C>|
                        {
                            &&& app@ == states[k]
                            &&& #[trigger] call_ensures(
                                AppContext::<V, C>::take_turn,
                                (app, ids@[k], None, None),
                                outcomes[k],
                            )
                            &&& final(app)@ == states[k + 1]
                        },
            decreases ids.len() - i,
        {
            let id = ids[i];
            let ghost before = self@;
            let ghost earlier = outcomes;
            let ghost passed = states;
            proof {
                assert(ids@.take(i + 1).drop_last() =~= ids@.take(i as int));
                assert(ids@.take(i + 1).last() == id);
                if quiet && before.turn(Relation::Observe, id, None) is Deliver {
                    quiet = false;
                }
            }
            let turn = self.take_turn(id, None, None);
            proof {
                assert(exists|app: &mut AppContext<V, C>|
                    {
                        &&& app@ == before
                        &&& #[trigger] call_ensures(
                            AppContext::<V, C>::take_turn,
                            (app, id, None, None),
                            turn,
                        )
                        &&& final(app)@ == self@
                    });
                states = states.push(self@);
                outcomes = outcomes.push(turn);
                assert(outcomes.drop_last() =~= earlier);
                assert forall|k: int|
                    #![trigger is_turn(outcomes, k)]
                    is_turn(outcomes, k) implies exists|app: &mut AppContext<V, C>|
                    {
                        &&& app@ == states[k]
                        &&& #[trigger] call_ensures(
                            AppContext::<V, C>::take_turn,
                            (app, ids@[k], None, None),
                            outcomes[k],
                        )
                        &&& final(app)@ == states[k + 1]
                    } by {
                    if k < i {
                        assert(is_turn(earlier, k));
                        assert(earlier[k] == outcomes[k]);
                        assert(passed[k] == states[k]);
                        assert(passed[k + 1] == states[k + 1]);
                    } else {
                        assert(states[k] == before);
                        assert(states[k + 1] == self@);
                        assert(outcomes[k] == turn);
                        assert(ids@[k] == id);
                    }
                }
                start.lemma_passed_sticks_or_passes(Relation::Observe, ids@, i + 1, None);
            }
            match turn {
                Err(e) => {
                    proof {
                        assert(forall|k: int|
                            0 <= k < outcomes.len() - 1 ==> (#[trigger] outcomes[k]) == earlier[k]);
                        assert(outcomes.last() == turn);
                        assert(taken(states, outcomes));
                    }
                    return Err(e);
                },
                Ok(false) => {},
                Ok(true) => {
                    called.push(id);
                    proof {
                        places = places.push(i as int);
                    }
                },
            }
            i = i + 1;
        }
        assert(ids@.take(i as int) =~= ids@);
        Ok(called)
    }

    /// Dispatches an event: as for a notification, over the emitter's
    /// subscribers, with the event handed to each callback. A subscriber
    /// registered for another type of event is a violation.
    pub fn dispatch_event(&mut self, emitter: EntityId, event_type: TypeTag, event: &V) -> (r:
        Result<Vec<u64>, Violation>)
        ensures
            r matches Ok(called) ==> in_order_of(
                called@,
                old(self)@.event_handlers.ids_of(emitter),
            ),
            match old(self)@.dispatched(Effect::Emit { emitter, event_type, event: *event }) {
                Turn::Pass(end) => r matches Ok(called) && called@.len() == 0 && final(self)@
                    == end,
                Turn::Stop(e, end) => r == Err::<Vec<u64>, Violation>(e) && final(self)@ == end,
                Turn::Deliver => true,
            },
            exists|states: Seq<AppState<V, C>>, outcomes: Seq<Result<bool, Violation>>|
                {
                    &&& #[trigger] taken(states, outcomes)
                    &&& states[0] == old(self)@
                    &&& states.last() == final(self)@
                    &&& reports(old(self)@.event_handlers.ids_of(emitter), outcomes, r)
                    &&& forall|k: int|
                        #![trigger is_turn(outcomes, k)]
                        is_turn(outcomes, k) ==> exists|app: &mut AppContext<V, C>|
                            {
                                &&& app@ == states[k]
                                &&& #[trigger] call_ensures(
                                    AppContext::<V, C>::take_turn,
                                    (
                                        app,
                                        old(self)@.event_handlers.ids_of(emitter)[k],
                                        Some(event_type),
                                        Some(event),
                                    ),
                                    outcomes[k],
                                )
                                &&& final(app)@ == states[k + 1]
                            }
                },
    {
        let ghost start = self@;
        let ghost payload = Some(event_type);
        let ids = self.snapshot(Relation::Subscribe, emitter);
        let mut called: Vec<u64> = Vec::new();
        let ghost mut places: Seq<int> = Seq::empty();
        let ghost mut quiet = true;
        let ghost mut states: Seq<AppState<V, C>> = seq![start];
        let ghost mut outcomes: Seq<Result<bool, Violation>> = Seq::empty();
        let mut i: usize = 0;
        while i < ids.len()
            invariant
                0 <= i <= ids.len(),
                payload == Some(event_type),
                start == old(self)@,
                ids@ == start.event_handlers.ids_of(emitter),
                picks(called@, ids@.take(i as int), places),
                quiet ==> start.passed(Relation::Subscribe, ids@.take(i as int), payload)
                    == Turn::Pass(self@) && called@.len() == 0,
                !quiet ==> start.passed(Relation::Subscribe, ids@.take(i as int), payload)
                    is Deliver,
                taken(states, outcomes),
                outcomes.len() == i,
                states[0] == start,
                states.last() == self@,
                called@ == ran(ids@, outcomes),
                forall|k: int| 0 <= k < i ==> (#[trigger] outcomes[k]) is Ok,
                forall|k: int|
                    #![trigger is_turn(outcomes, k)]
                    is_turn(outcomes, k) ==> exists|app: &mut AppContext<V, C>|
                        {
                            &&& app@ == states[k]
                            &&& #[trigger] call_ensures(
                                AppContext::<V, C>::take_turn,
                                (app, ids@[k], Some(event_type), Some(event)),
                                outcomes[k],
                            )
                            &&& final(app)@ == states[k + 1]
                        },
            decreases ids.len() - i,
        {
            let id = ids[i];
            let ghost before = self@;
            let ghost earlier = outcomes;
            let ghost passed = states;
            proof {
                assert(ids@.take(i + 1).drop_last() =~= ids@.take(i as int));
                assert(ids@.take(i + 1).last() == id);
                if quiet && before.turn(Relation::Subscribe, id, payload) is Deliver {
                    quiet = false;
                }
            }
            let turn = self.take_turn(id, Some(event_type), Some(event));
            proof {
                assert(exists|app: &mut AppContext<V, C>|
                    {
                        &&& app@ == before
                        &&& #[trigger] call_ensures(
                            AppContext::<V, C>::take_turn,
                            (app, id, Some(event_type), Some(event)),
                            turn,
                        )
                        &&& final(app)@ == self@
                    });
                states = states.push(self@);
                outcomes = outcomes.push(turn);
                assert(outcomes.drop_last() =~= earlier);
                assert forall|k: int|
                    #![trigger is_turn(outcomes, k)]
                    is_turn(outcomes, k) implies exists|app: &mut AppContext<V, C>|
                    {
                        &&& app@ == states[k]
                        &&& #[trigger] call_ensures(
                            AppContext::<V, C>::take_turn,
                            (app, ids@[k], Some(event_type), Some(event)),
                            outcomes[k],
                        )
                        &&& final(app)@ == states[k + 1]
                    } by {
                    if k < i {
                        assert(is_turn(earlier, k));
                        assert(earlier[k] == outcomes[k]);
                        assert(passed[k] == states[k]);
                        assert(passed[k + 1] == states[k + 1]);
                    } else {
                        assert(states[k] == before);
                        assert(states[k + 1] == self@);
                        assert(outcomes[k] == turn);
                        assert(ids@[k] == id);
                    }
                }
                start.lemma_passed_sticks_or_passes(Relation::Subscribe, ids@, i + 1, payload);
            }
            match turn {
                Err(e) => {
                    proof {
                        assert(forall|k: int|
                            0 <= k < outcomes.len() - 1 ==> (#[trigger] outcomes[k]) == earlier[k]);
                        assert(outcomes.last() == turn);
                        assert(taken(states, outcomes));
                    }
                    return Err(e);
                },
                Ok(false) => {},
                Ok(true) => {
                    called.push(id);
                    proof {
                        places = places.push(i as int);
                    }
                },
            }
            i = i + 1;
        }
        assert(ids@.take(i as int) =~= ids@);
        Ok(called)
    }

    /// Dispatches a release: takes the turns of the watchers of the released
    /// entity as for a notification, each callback handed the value that
    /// left the store, and then removes everything filed under the entity
    /// from every registry. A watcher registered for an entity of another
    /// type is a violation, and ends the dispatch before anything is
    /// removed.
    pub fn dispatch_release(&mut self, entity_id: EntityId, entity_type: TypeTag, entity: &mut V) -> (r:
        Result<Vec<u64>, Violation>)
        ensures
            r matches Ok(called) ==> {
                &&& in_order_of(called@, old(self)@.release_handlers.ids_of(entity_id))
                &&& forall|relation: Relation| #[trigger]
                    final(self)@.registry(relation).ids_of(entity_id) == Seq::<u64>::empty()
            },
            match old(self)@.dispatched(
                Effect::Release { entity_id, entity_type, entity: *old(entity) },
            ) {
                Turn::Pass(end) => {
                    &&& r matches Ok(called) && called@.len() == 0
                    &&& final(self)@ == end
                    &&& *final(entity) == *old(entity)
                },
                Turn::Stop(e, end) => {
                    &&& r == Err::<Vec<u64>, Violation>(e)
                    &&& final(self)@ == end
                    &&& *final(entity) == *old(entity)
                },
                Turn::Deliver => true,
            },
            exists|
                states: Seq<AppState<V, C>>,
                values: Seq<V>,
                outcomes: Seq<Result<bool, Violation>>,
            |
                {
                    &&& #[trigger] taken_with(states, values, outcomes)
                    &&& states[0] == old(self)@
                    &&& values[0] == *old(entity)
                    &&& values.last() == *final(entity)
                    &&& final(self)@ == if r is Ok {
                        states.last().forgotten(entity_id)
                    } else {
                        states.last()
                    }
                    &&& reports(old(self)@.release_handlers.ids_of(entity_id), outcomes, r)
                    &&& forall|k: int|
                        #![trigger is_turn(outcomes, k)]
                        is_turn(outcomes, k) ==> exists|
                            app: &mut AppContext<V, C>,
                            value: &mut V,
                        |
                            {
                                &&& app@ == states[k]
                                &&& *value == values[k]
                                &&& #[trigger] call_ensures(
                                    AppContext::<V, C>::take_release_turn,
                                    (
                                        app,
                                        old(self)@.release_handlers.ids_of(entity_id)[k],
                                        entity_type,
                                        value,
                                    ),
                                    outcomes[k],
                                )
                                &&& final(app)@ == states[k + 1]
                                &&& *final(value) == values[k + 1]
                            }
                },
    {
        let ghost start = self@;
        let ghost payload = Some(entity_type);
        let ids = self.snapshot(Relation::Release, entity_id);
        let mut called: Vec<u64> = Vec::new();
        let ghost mut places: Seq<int> = Seq::empty();
        let ghost mut quiet = true;
        let ghost mut states: Seq<AppState<V, C>> = seq![start];
        let ghost mut values: Seq<V> = seq![*entity];
        let ghost mut outcomes: Seq<Result<bool, Violation>> = Seq::empty();
        let mut i: usize = 0;
        while i < ids.len()
            invariant
                0 <= i <= ids.len(),
                payload == Some(entity_type),
                start == old(self)@,
                ids@ == start.release_handlers.ids_of(entity_id),
                picks(called@, ids@.take(i as int), places),
                quiet ==> start.passed(Relation::Release, ids@.take(i as int), payload)
                    == Turn::Pass(self@) && called@.len() == 0 && *entity == *old(entity),
                !quiet ==> start.passed(Relation::Release, ids@.take(i as int), payload)
                    is Deliver,
                taken_with(states, values, outcomes),
                outcomes.len() == i,
                states[0] == start,
                states.last() == self@,
                values[0] == *old(entity),
                values.last() == *entity,
                called@ == ran(ids@, outcomes),
                forall|k: int| 0 <= k < i ==> (#[trigger] outcomes[k]) is Ok,
                forall|k: int|
                    #![trigger is_turn(outcomes, k)]
                    is_turn(outcomes, k) ==> exists|app: &mut AppContext<V, C>, value: &mut V|
                        {
                            &&& app@ == states[k]
                            &&& *value == values[k]
                            &&& #[trigger] call_ensures(
                                AppContext::<V, C>::take_release_turn,
                                (app, ids@[k], entity_type, value),
                                outcomes[k],
                            )
                            &&& final(app)@ == states[k + 1]
                            &&& *final(value) == values[k + 1]
                        },
            decreases ids.len() - i,
        {
            let id = ids[i];
            let ghost before = self@;
            let ghost earlier = outcomes;
            let ghost passed = states;
            let ghost held = values;
            proof {
                assert(ids@.take(i + 1).drop_last() =~= ids@.take(i as int));
                assert(ids@.take(i + 1).last() == id);
                if quiet && before.turn(Relation::Release, id, payload) is Deliver {
                    quiet = false;
                }
            }
            let ghost value_before = *entity;
            let turn = self.take_release_turn(id, entity_type, entity);
            proof {
                assert(exists|app: &mut AppContext<V, C>, value: &mut V|
                    {
                        &&& app@ == before
                        &&& *value == value_before
                        &&& #[trigger] call_ensures(
                            AppContext::<V, C>::take_release_turn,
                            (app, id, entity_type, value),
                            turn,
                        )
                        &&& final(app)@ == self@
                        &&& *final(value) == *entity
                    });
                states = states.push(self@);
                values = values.push(*entity);
                outcomes = outcomes.push(turn);
                assert(outcomes.drop_last() =~= earlier);
                assert forall|k: int|
                    #![trigger is_turn(outcomes, k)]
                    is_turn(outcomes, k) implies exists|app: &mut AppContext<V, C>, value: &mut V|
                    {
                        &&& app@ == states[k]
                        &&& *value == values[k]
                        &&& #[trigger] call_ensures(
                            AppContext::<V, C>::take_release_turn,
                            (app, ids@[k], entity_type, value),
                            outcomes[k],
                        )
                        &&& final(app)@ == states[k + 1]
                        &&& *final(value) == values[k + 1]
                    } by {
                    if k < i {
                        assert(is_turn(earlier, k));
                        assert(earlier[k] == outcomes[k]);
                        assert(passed[k] == states[k]);
                        assert(passed[k + 1] == states[k + 1]);
                        assert(held[k] == values[k]);
                        assert(held[k + 1] == values[k + 1]);
                    } else {
                        assert(states[k] == before);
                        assert(states[k + 1] == self@);
                        assert(values[k] == value_before);
                        assert(values[k + 1] == *entity);
                        assert(outcomes[k] == turn);
                        assert(ids@[k] == id);
                    }
                }
                start.lemma_passed_sticks_or_passes(Relation::Release, ids@, i + 1, payload);
            }
            match turn {
                Err(e) => {
                    proof {
                        assert(forall|k: int|
                            0 <= k < outcomes.len() - 1 ==> (#[trigger] outcomes[k]) == earlier[k]);
                        assert(outcomes.last() == turn);
                        assert(taken_with(states, values, outcomes));
                    }
                    return Err(e);
                },
                Ok(false) => {},
                Ok(true) => {
                    called.push(id);
                    proof {
                        places = places.push(i as int);
                    }
                },
            }
            i = i + 1;
        }
        assert(ids@.take(i as int) =~= ids@);
        self.finish_release(entity_id);
        Ok(called)
    }

    /// Dispatches one effect taken from the queue, by its kind: a
    /// notification to the emitter's observers, an event to its
    /// subscribers, a release to the watchers of the released entity, after
    /// which the entity is forgotten by every registry, and a deferred
    /// callback to itself. Returns the numbers of the registered callbacks
    /// that were run, in the order of the runs; none for a deferred
    /// callback, which is not registered. As long as no delivery is
    /// prepared, the runtime alone decides what happens.
    pub fn dispatch(&mut self, effect: Effect<V, C>) -> (r: Result<Vec<u64>, Violation>)
        ensures
            r matches Ok(called) ==> in_order_of(called@, old(self)@.listed_for(effect)),
            r matches Ok(called) ==> (effect matches Effect::Release { entity_id, .. }
                ==> forall|relation: Relation| #[trigger]
                final(self)@.registry(relation).ids_of(entity_id) == Seq::<u64>::empty()),
            match old(self)@.dispatched(effect) {
                Turn::Pass(end) => r matches Ok(called) && called@.len() == 0 && final(self)@
                    == end,
                Turn::Stop(e, end) => r == Err::<Vec<u64>, Violation>(e) && final(self)@ == end,
                Turn::Deliver => true,
            },
            effect is Defer ==> (r matches Ok(called) && called@.len() == 0),
            effect is Notify ==> exists|app: &mut AppContext<V, C>|
                {
                    &&& app@ == old(self)@
                    &&& #[trigger] call_ensures(
                        AppContext::<V, C>::dispatch_notify,
                        (app, effect->Notify_emitter),
                        r,
                    )
                    &&& final(app)@ == final(self)@
                },
            effect is Emit ==> exists|app: &mut AppContext<V, C>|
                {
                    &&& app@ == old(self)@
                    &&& #[trigger] call_ensures(
                        AppContext::<V, C>::dispatch_event,
                        (app, effect->Emit_emitter, effect->Emit_event_type, &effect->Emit_event),
                        r,
                    )
                    &&& final(app)@ == final(self)@
                },
            effect is Release ==> exists|app: &mut AppContext<V, C>, value: &mut V|
                {
                    &&& app@ == old(self)@
                    &&& *value == effect->Release_entity
                    &&& #[trigger] call_ensures(
                        AppContext::<V, C>::dispatch_release,
                        (app, effect->Release_entity_id, effect->Release_entity_type, value),
                        r,
                    )
                    &&& final(app)@ == final(self)@
                },
            effect is Defer ==> exists|app: &mut AppContext<V, C>|
                {
                    &&& app@ == old(self)@
                    &&& #[trigger] call_ensures(C::on_defer, (effect->Defer_callback, app), ())
                    &&& final(app)@ == final(self)@
                },
    {
        match effect {
            Effect::Notify { emitter } => self.dispatch_notify(emitter),
            Effect::Emit { emitter, event_type, event } => self.dispatch_event(
                emitter,
                event_type,
                &event,
            ),
            Effect::Release { entity_id, entity_type, entity } => {
                let mut entity = entity;
                self.dispatch_release(entity_id, entity_type, &mut entity)
            },
            Effect::Defer { callback } => {
                callback.on_defer(self);
                let called: Vec<u64> = Vec::new();
                assert(picks(called@, old(self)@.listed_for(effect), Seq::empty()));
                Ok(called)
            },
        }
    }

    /// Takes one step of a flush: dispatches an effect and ends the update
    /// again, which hands out the effect that waits next, if one does.
    /// Where the dispatch fails, the update is not ended.
    pub fn flush_one(&mut self, effect: Effect<V, C>) -> (r: Result<
        Option<Effect<V, C>>,
        Violation,
    >)
        ensures
            match old(self)@.dispatched(effect) {
                Turn::Pass(end) => r == Ok::<Option<Effect<V, C>>, Violation>(end.next_effect())
                    && final(self)@ == end.finished(),
                Turn::Stop(e, end) => r == Err::<Option<Effect<V, C>>, Violation>(e)
                    && final(self)@ == end,
                Turn::Deliver => true,
            },
            exists|app: &mut AppContext<V, C>, called: Result<Vec<u64>, Violation>|
                {
                    &&& app@ == old(self)@
                    &&& #[trigger] call_ensures(AppContext::<V, C>::dispatch, (app, effect), called)
                    &&& match called {
                        Ok(_) => r == Ok::<Option<Effect<V, C>>, Violation>(
                            final(app)@.next_effect(),
                        ) && final(self)@ == final(app)@.finished(),
                        Err(e) => r == Err::<Option<Effect<V, C>>, Violation>(e) && final(self)@
                            == final(app)@,
                    }
                },
            r matches Ok(rest) ==> exists|before: AppState<V, C>| #[trigger]
                before.ends_in(final(self)@, rest),
    {
        match self.dispatch(effect) {
            Err(e) => Err(e),
            Ok(_) => {
                let ghost before = self@;
                let next = self.finish_update();
                let r = Ok(next);
                assert(before.ends_in(self@, next));
                r
            },
        }
    }

    /// Goes on with the flush at the end of the outermost update: dispatches
    /// `next`, the effect that the end of the update handed out, then the
    /// effect that the next end hands out, and so on, oldest first, until
    /// nothing is handed out or `limit` effects are dispatched. Effects
    /// queued by the callbacks join the same queue and are dispatched by the
    /// same flush. Returns the effect handed out last and not dispatched:
    /// nothing when the flush is complete, an effect when the limit was
    /// reached, with which the caller goes on.
    pub fn flush(&mut self, next: Option<Effect<V, C>>, limit: usize) -> (r: Result<
        Option<Effect<V, C>>,
        Violation,
    >)
        ensures
            r matches Ok(rest) ==> {
                ||| final(self)@ == old(self)@ && rest == next
                ||| exists|before: AppState<V, C>| #[trigger] before.ends_in(final(self)@, rest)
            },
            next is None || limit == 0 ==> r == Ok::<Option<Effect<V, C>>, Violation>(next)
                && final(self)@ == old(self)@,
            match old(self)@.flushed(next, limit as nat) {
                Flush::Done(end, rest) => r == Ok::<Option<Effect<V, C>>, Violation>(rest)
                    && final(self)@ == end,
                Flush::Stop(e, end) => r == Err::<Option<Effect<V, C>>, Violation>(e)
                    && final(self)@ == end,
                Flush::Deliver => true,
            },
            r is Ok && next is Some && limit > 0 && final(self)@.is_idle() ==> r == Ok::<
                Option<Effect<V, C>>,
                Violation,
            >(None) && final(self)@.is_drained(),
            exists|
                states: Seq<AppState<V, C>>,
                outcomes: Seq<Result<Option<Effect<V, C>>, Violation>>,
            |
                {
                    &&& #[trigger] taken(states, outcomes)
                    &&& states[0] == old(self)@
                    &&& states.last() == final(self)@
                    &&& outcomes.len() <= limit
                    &&& forall|k: int| 0 <= k < outcomes.len() - 1 ==> (#[trigger] outcomes[k]) is Ok
                    &&& match r {
                        Ok(rest) => rest == handed(next, outcomes, outcomes.len() as int)
                            && (outcomes.len() > 0 ==> outcomes.last() is Ok),
                        Err(_) => outcomes.len() > 0 && r == outcomes.last(),
                    }
                    &&& r matches Ok(Some(_)) ==> outcomes.len() == limit
                    &&& forall|k: int|
                        #![trigger is_turn(outcomes, k)]
                        is_turn(outcomes, k) ==> handed(next, outcomes, k) is Some && exists|
                            app: &mut AppContext<V, C>,
                        |
                            {
                                &&& app@ == states[k]
                                &&& #[trigger] call_ensures(
                                    AppContext::<V, C>::flush_one,
                                    (app, handed(next, outcomes, k)->Some_0),
                                    outcomes[k],
                                )
                                &&& final(app)@ == states[k + 1]
                            }
                },
    {
        let ghost given = next;
        let ghost start = self@;
        let ghost mut quiet = true;
        let mut waiting = next;
        let mut dispatched: usize = 0;
        let ghost mut ended: Option<AppState<V, C>> = None;
        let ghost mut states: Seq<AppState<V, C>> = seq![start];
        let ghost mut outcomes: Seq<Result<Option<Effect<V, C>>, Violation>> = Seq::empty();
        while dispatched < limit
            invariant
                dispatched <= limit,
                start == old(self)@,
                quiet ==> start.flushed(given, limit as nat) == self@.flushed(
                    waiting,
                    (limit - dispatched) as nat,
                ),
                !quiet ==> start.flushed(given, limit as nat) is Deliver,
                given == next,
                given is None ==> ended is None,
                dispatched == 0 <==> ended is None,
                match ended {
                    None => self@ == old(self)@ && waiting == given,
                    Some(before) => before.ends_in(self@, waiting),
                },
                taken(states, outcomes),
                outcomes.len() == dispatched,
                states[0] == start,
                states.last() == self@,
                waiting == handed(given, outcomes, dispatched as int),
                forall|k: int| 0 <= k < dispatched ==> (#[trigger] outcomes[k]) is Ok,
                forall|k: int|
                    #![trigger is_turn(outcomes, k)]
                    is_turn(outcomes, k) ==> handed(given, outcomes, k) is Some && exists|
                        app: &mut AppContext<V, C>,
                    |
                        {
                            &&& app@ == states[k]
                            &&& #[trigger] call_ensures(
                                AppContext::<V, C>::flush_one,
                                (app, handed(given, outcomes, k)->Some_0),
                                outcomes[k],
                            )
                            &&& final(app)@ == states[k + 1]
                        },
            decreases limit - dispatched,
        {
            match waiting {
                None => {
                    proof {
                        if ended is Some && self@.is_idle() {
                            ended->Some_0.lemma_idle_is_drained(self@, waiting);
                        }
                    }
                    return Ok(None);
                },
                Some(effect) => {
                    let ghost before = self@;
                    let ghost earlier = outcomes;
                    let ghost passed = states;
                    proof {
                        if quiet && self@.dispatched(effect) is Deliver {
                            quiet = false;
                        }
                    }
                    let step = self.flush_one(effect);
                    proof {
                        assert(exists|app: &mut AppContext<V, C>|
                            {
                                &&& app@ == before
                                &&& #[trigger] call_ensures(
                                    AppContext::<V, C>::flush_one,
                                    (app, effect),
                                    step,
                                )
                                &&& final(app)@ == self@
                            });
                        states = states.push(self@);
                        outcomes = outcomes.push(step);
                        assert(outcomes.drop_last() =~= earlier);
                        assert(forall|k: int|
                            0 <= k <= dispatched ==> handed(given, outcomes, k) == handed(
                                given,
                                earlier,
                                k,
                            ));
                        assert forall|k: int|
                            #![trigger is_turn(outcomes, k)]
                            is_turn(outcomes, k) implies handed(given, outcomes, k) is Some
                            && exists|app: &mut AppContext<V, C>|
                            {
                                &&& app@ == states[k]
                                &&& #[trigger] call_ensures(
                                    AppContext::<V, C>::flush_one,
                                    (app, handed(given, outcomes, k)->Some_0),
                                    outcomes[k],
                                )
                                &&& final(app)@ == states[k + 1]
                            } by {
                            if k < dispatched {
                                assert(is_turn(earlier, k));
                                assert(earlier[k] == outcomes[k]);
                                assert(passed[k] == states[k]);
                                assert(passed[k + 1] == states[k + 1]);
                            } else {
                                assert(states[k] == before);
                                assert(states[k + 1] == self@);
                                assert(outcomes[k] == step);
                                assert(handed(given, outcomes, k) == Some(effect));
                            }
                        }
                    }
                    match step {
                        Err(e) => {
                            proof {
                                assert(forall|k: int|
                                    0 <= k < outcomes.len() - 1 ==> (#[trigger] outcomes[k])
                                        == earlier[k]);
                                assert(outcomes.last() == step);
                                assert(taken(states, outcomes));
                            }
                            return Err(e);
                        },
                        Ok(rest) => {
                            proof {
                                ended = Some(choose|state: AppState<V, C>|
                                    #[trigger] state.ends_in(self@, rest));
                            }
                            waiting = rest;
                            dispatched = dispatched + 1;
                        },
                    }
                },
            }
        }
        proof {
            if ended is Some && self@.is_idle() {
                ended->Some_0.lemma_idle_is_drained(self@, waiting);
            }
        }
        Ok(waiting)
    }

    /// Ends an update and, at the end of the outermost one, flushes the
    /// queue: every effect that waits is dispatched, oldest first, with
    /// those that the callbacks queue meanwhile, until none waits. The end
    /// of an inner update only counts down.
    pub fn end_update(&mut self) -> (r: Result<(), Violation>)
        ensures
            old(self)@.closes(None, final(self)@, r),
            exists|
                app: &mut AppContext<V, C>,
                flushed: Result<Option<Effect<V, C>>, Violation>,
            |
                {
                    &&& app@ == old(self)@.finished()
                    &&& #[trigger] call_ensures(
                        AppContext::<V, C>::flush,
                        (app, old(self)@.next_effect(), usize::MAX),
                        flushed,
                    )
                    &&& final(app)@ == final(self)@
                    &&& match flushed {
                        Ok(None) => r is Ok,
                        Ok(Some(_)) => r == Err::<(), Violation>(Violation::TooManyEffects),
                        Err(e) => r == Err::<(), Violation>(e),
                    }
                },
            old(self)@.depth > 1 || old(self)@.effects.pending.len() == 0 ==> r is Ok
                && final(self)@ == old(self)@.finished(),
            r is Ok ==> exists|before: AppState<V, C>| #[trigger]
                before.ends_in(final(self)@, None),
            r is Ok && final(self)@.is_idle() ==> final(self)@.is_drained(),
    {
        let ghost before = self@;
        let next = self.finish_update();
        let ghost ended = self@;
        assert(before.ends_in(ended, next));
        match self.flush(next, usize::MAX) {
            Err(e) => Err(e),
            Ok(Some(_)) => Err(Violation::TooManyEffects),
            Ok(None) => {
                proof {
                    if self@ == ended && self@.is_idle() {
                        before.lemma_idle_is_drained(self@, None);
                    }
                }
                Ok(())
            },
        }
    }
}

} // verus!
