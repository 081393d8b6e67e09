use crate::effect::{Effect, Effects};
use crate::entity::{Entities, EntityId, Handle, StoreOp, TypeTag};
use crate::error::Violation;
use crate::global::Globals;
use crate::subscription::{
    lemma_select_narrows, Handler, Key, RegistryOp, Relation, Subscribers, Subscription,
};
use crate::window::Windows;
use vstd::prelude::*;

verus! {

/// What the dispatch of an effect comes to for the callbacks it has gone
/// through, as far as the runtime alone decides it.
pub enum Turn<V, C> {
    /// No delivery was prepared, and the runtime is in this state: a
    /// callback that was removed is passed over, and one whose entity is
    /// gone is not run.
    Pass(AppState<V, C>),
    /// The dispatch ended with this violation, in this state.
    Stop(Violation, AppState<V, C>),
    /// A delivery was prepared. From here on the callbacks decide.
    Deliver,
}

/// What a flush comes to, as far as the runtime alone decides it.
pub enum Flush<V, C> {
    /// Every effect that was dispatched prepared no delivery. The runtime
    /// is in this state, and this effect, if any, was handed out last and
    /// is not dispatched: none when the flush is complete.
    Done(AppState<V, C>, Option<Effect<V, C>>),
    /// The flush ended with this violation, in this state.
    Stop(Violation, AppState<V, C>),
    /// A delivery was prepared. From here on the callbacks decide.
    Deliver,
}

/// What went out of use away from the runtime and waits to be taken back
/// by it: a strong handle, or the token of a registered callback.
#[derive(Debug)]
pub enum Dropped {
    Handle(Handle),
    Subscription(Subscription),
}

/// The runtime as a mathematical value.
pub struct AppState<V, C> {
    pub entities: Entities<V>,
    pub globals: Globals<V>,
    pub effects: Effects<V, C>,
    pub observers: Subscribers<Handler<C>>,
    pub event_handlers: Subscribers<Handler<C>>,
    pub release_handlers: Subscribers<Handler<C>>,
    pub windows: Windows<V, C>,
    /// The number of updates that are under way, one inside the other.
    pub depth: usize,
    /// Whether a refresh was asked for and not yet taken up.
    pub dirty: bool,
}

impl<V, C> AppState<V, C> {
    pub open spec fn empty() -> Self {
        AppState {
            entities: Entities::empty(),
            globals: Globals::empty(),
            effects: Effects::empty(),
            observers: Subscribers::empty(),
            event_handlers: Subscribers::empty(),
            release_handlers: Subscribers::empty(),
            windows: Windows::empty(),
            depth: 0,
            dirty: false,
        }
    }

    pub open spec fn wf(self) -> bool {
        &&& self.entities.wf()
        &&& self.effects.wf()
        &&& self.observers.wf()
        &&& self.event_handlers.wf()
        &&& self.release_handlers.wf()
    }

    /// No update is under way.
    pub open spec fn is_idle(self) -> bool {
        self.depth == 0
    }

    /// The registry of one relationship.
    pub open spec fn registry(self, relation: Relation) -> Subscribers<Handler<C>> {
        match relation {
            Relation::Observe => self.observers,
            Relation::Subscribe => self.event_handlers,
            Relation::Release => self.release_handlers,
        }
    }

    /// The runtime with the registry of one relationship replaced.
    pub open spec fn with_registry(
        self,
        relation: Relation,
        registry: Subscribers<Handler<C>>,
    ) -> Self {
        match relation {
            Relation::Observe => AppState { observers: registry, ..self },
            Relation::Subscribe => AppState { event_handlers: registry, ..self },
            Relation::Release => AppState { release_handlers: registry, ..self },
        }
    }

    /// The runtime with an effect appended to the queue.
    pub open spec fn with_effect(self, effect: Effect<V, C>) -> Self {
        AppState { effects: self.effects.pushed(effect), ..self }
    }

    /// The runtime after an update is entered.
    pub open spec fn entered(self) -> Self {
        AppState { depth: (self.depth + 1) as usize, ..self }
    }

    /// The runtime after the end of an update. The end of an inner update
    /// only counts down. The end of the outermost one hands out the oldest
    /// effect while there is one, and the runtime stays in the update; with
    /// nothing left to hand out, the runtime is idle.
    pub open spec fn finished(self) -> Self {
        if self.depth > 1 {
            AppState { depth: (self.depth - 1) as usize, ..self }
        } else if self.effects.pending.len() > 0 {
            AppState { depth: 1, effects: self.effects.popped(), ..self }
        } else {
            AppState { depth: 0, ..self }
        }
    }

    /// The effect that the end of an update hands out.
    pub open spec fn next_effect(self) -> Option<Effect<V, C>> {
        if self.depth > 1 {
            None
        } else {
            self.effects.front()
        }
    }

    /// `after` and `next` are what the end of an update makes of this state.
    pub open spec fn ends_in(self, after: Self, next: Option<Effect<V, C>>) -> bool {
        after == self.finished() && next == self.next_effect()
    }

    /// Nothing waits in the queue and, if the runtime is well formed, every
    /// effect that was ever queued has been handed out exactly once, in the
    /// order in which it was queued.
    pub open spec fn is_drained(self) -> bool {
        &&& self.effects.pending.len() == 0
        &&& self.wf() ==> self.effects.dispatched == self.effects.enqueued
    }

    /// The numbers of the registered callbacks that the dispatch of an
    /// effect goes through, in the order of their registration.
    pub open spec fn listed_for(self, effect: Effect<V, C>) -> Seq<u64> {
        match effect {
            Effect::Notify { emitter } => self.observers.ids_of(emitter),
            Effect::Emit { emitter, .. } => self.event_handlers.ids_of(emitter),
            Effect::Release { entity_id, .. } => self.release_handlers.ids_of(entity_id),
            Effect::Defer { .. } => Seq::empty(),
        }
    }

    /// The runtime after a strong handle is given up: with the last one the
    /// slot goes at once, and the release is queued with the value.
    pub open spec fn released(self, id: EntityId) -> Self {
        match self.entities.departing(id) {
            None => AppState { entities: self.entities.dropped(id), ..self },
            Some(entity) => AppState {
                entities: self.entities.dropped(id),
                effects: self.effects.pushed(
                    Effect::Release {
                        entity_id: id,
                        entity_type: self.entities.slots[id.0].type_tag,
                        entity,
                    },
                ),
                ..self
            },
        }
    }

    /// The runtime after an attempt to give up a strong handle: as `released`
    /// says where the store accepts it, unchanged where the store refuses it
    /// or there is no handle.
    pub open spec fn after_release(self, handle: Option<Handle>) -> Self {
        match handle {
            Some(handle) => if self.entities.release_refusal(handle.id(), handle.type_tag())
                is None {
                self.released(handle.id())
            } else {
                self
            },
            None => self,
        }
    }

    /// What an attempt to give up a strong handle reports.
    pub open spec fn release_outcome(self, handle: Option<Handle>) -> Result<(), Violation> {
        match handle {
            Some(handle) => match self.entities.release_refusal(handle.id(), handle.type_tag()) {
                Some(e) => Err(e),
                None => Ok(()),
            },
            None => Ok(()),
        }
    }

    /// The runtime after it has taken back one thing that went out of use:
    /// a handle is given up, a callback is removed.
    pub open spec fn taken_back(self, dropped: Dropped) -> Self {
        match dropped {
            Dropped::Handle(handle) => self.after_release(Some(handle)),
            Dropped::Subscription(token) => self.with_registry(
                token.relation(),
                self.registry(token.relation()).removed(token.id()),
            ),
        }
    }

    /// What taking back one thing reports: the refusal of the store for a
    /// handle it does not know, and nothing else.
    pub open spec fn take_back_outcome(self, dropped: Dropped) -> Result<(), Violation> {
        match dropped {
            Dropped::Handle(handle) => self.release_outcome(Some(handle)),
            Dropped::Subscription(_) => Ok(()),
        }
    }

    /// The runtime after it has taken back what went out of use, in the
    /// order given, and what that reports: the first refusal ends it, and
    /// what comes after is not taken back.
    pub open spec fn all_taken_back(self, dropped: Seq<Dropped>) -> (Self, Result<(), Violation>)
        decreases dropped.len(),
    {
        if dropped.len() == 0 {
            (self, Ok(()))
        } else {
            match self.take_back_outcome(dropped[0]) {
                Err(e) => (self, Err(e)),
                Ok(_) => self.taken_back(dropped[0]).all_taken_back(dropped.skip(1)),
            }
        }
    }

    /// The runtime after the two handles of a delivery are given up, one
    /// after the other.
    pub open spec fn given_back(self, this: Option<Handle>, target: Option<Handle>) -> Self {
        self.after_release(this).after_release(target)
    }

    /// What giving up the two handles of a delivery reports: the first
    /// refusal, if there is one.
    pub open spec fn give_back_outcome(
        self,
        this: Option<Handle>,
        target: Option<Handle>,
    ) -> Result<(), Violation> {
        match self.release_outcome(this) {
            Err(e) => Err(e),
            Ok(_) => self.after_release(this).release_outcome(target),
        }
    }

    /// How a delivery ends once its callback has returned, leaving the
    /// runtime in this state and the value of the entity it ran on as
    /// `value`: the value goes back into the slot of `on` and the handles go
    /// back to the runtime. Where the slot refuses the value, nothing more
    /// is done. Gives the state in which the delivery ends and what it
    /// reports.
    pub open spec fn settled(
        self,
        value: V,
        on: Handle,
        this: Option<Handle>,
        target: Option<Handle>,
    ) -> (Self, Result<(), Violation>) {
        match self.entities.restore_refusal(on.id(), on.type_tag()) {
            Some(e) => (self, Err(e)),
            None => {
                let restored = AppState {
                    entities: self.entities.stored(on.id(), value),
                    ..self
                };
                (restored.given_back(this, target), restored.give_back_outcome(this, target))
            },
        }
    }

    /// What the turn of the callback registered under `id` comes to in this
    /// state. `payload` is the type of the event, or of the entity that was
    /// released.
    pub open spec fn turn(self, relation: Relation, id: u64, payload: Option<TypeTag>) -> Turn<
        V,
        C,
    > {
        match self.registry(relation).find(id) {
            None => Turn::Pass(self),
            Some(entry) => if relation == Relation::Subscribe && entry.handler.event_type
                != payload {
                Turn::Stop(Violation::EventTypeMismatch, self)
            } else if relation == Relation::Release && Some(entry.handler.target.type_tag)
                != payload {
                Turn::Stop(Violation::TypeMismatch, self)
            } else if !self.reaches(entry.handler, relation != Relation::Release) {
                if relation == Relation::Release {
                    Turn::Pass(self)
                } else {
                    Turn::Pass(
                        self.with_registry(relation, self.registry(relation).removed(id)),
                    )
                }
            } else if !self.has_room(entry.handler) {
                Turn::Stop(Violation::TooManyHandles, self)
            } else {
                Turn::Deliver
            },
        }
    }

    /// What the turns of the callbacks registered under `ids`, one after the
    /// other, come to from this state.
    pub open spec fn passed(self, relation: Relation, ids: Seq<u64>, payload: Option<TypeTag>) -> Turn<
        V,
        C,
    >
        decreases ids.len(),
    {
        if ids.len() == 0 {
            Turn::Pass(self)
        } else {
            match self.passed(relation, ids.drop_last(), payload) {
                Turn::Pass(state) => state.turn(relation, ids.last(), payload),
                other => other,
            }
        }
    }

    /// What the dispatch of an effect comes to from this state, as far as
    /// the runtime alone decides it: a release that prepares no delivery
    /// ends with the entity forgotten by every registry, and a deferred
    /// callback is always run.
    pub open spec fn dispatched(self, effect: Effect<V, C>) -> Turn<V, C> {
        match effect {
            Effect::Notify { emitter } => self.passed(
                Relation::Observe,
                self.observers.ids_of(emitter),
                None,
            ),
            Effect::Emit { emitter, event_type, .. } => self.passed(
                Relation::Subscribe,
                self.event_handlers.ids_of(emitter),
                Some(event_type),
            ),
            Effect::Release { entity_id, entity_type, .. } => match self.passed(
                Relation::Release,
                self.release_handlers.ids_of(entity_id),
                Some(entity_type),
            ) {
                Turn::Pass(end) => Turn::Pass(end.forgotten(entity_id)),
                other => other,
            },
            Effect::Defer { .. } => Turn::Deliver,
        }
    }

    /// What a flush comes to that goes on from this state with the effect
    /// `next` and dispatches at most `limit` effects: each effect is
    /// dispatched, the update is ended again, and the flush goes on with
    /// what that end hands out.
    pub open spec fn flushed(self, next: Option<Effect<V, C>>, limit: nat) -> Flush<V, C>
        decreases limit,
    {
        match next {
            None => Flush::Done(self, None),
            Some(effect) => if limit == 0 {
                Flush::Done(self, next)
            } else {
                match self.dispatched(effect) {
                    Turn::Pass(end) => end.finished().flushed(
                        end.next_effect(),
                        (limit - 1) as nat,
                    ),
                    Turn::Stop(e, end) => Flush::Stop(e, end),
                    Turn::Deliver => Flush::Deliver,
                }
            },
        }
    }

    /// What the end of an update comes to from this state: the update is
    /// ended and, at the end of the outermost one, the queue is flushed.
    pub open spec fn ended(self) -> Flush<V, C> {
        self.finished().flushed(self.next_effect(), usize::MAX as nat)
    }

    /// Whether an update that stood in this state when its work was done,
    /// with `failed` the violation met in that work, if any, ends in the
    /// state `after` with `outcome`. The violation met first is the one
    /// reported; a flush that leaves an effect undispatched reports
    /// `TooManyEffects`. Where a delivery is prepared in the flush, the
    /// callbacks decide the state and, if the work went well, the outcome.
    pub open spec fn closes(
        self,
        failed: Option<Violation>,
        after: Self,
        outcome: Result<(), Violation>,
    ) -> bool {
        match self.ended() {
            Flush::Done(end, rest) => {
                &&& after == end
                &&& outcome == match failed {
                    Some(e) => Err::<(), Violation>(e),
                    None => if rest is None {
                        Ok::<(), Violation>(())
                    } else {
                        Err::<(), Violation>(Violation::TooManyEffects)
                    },
                }
            },
            Flush::Stop(e, end) => {
                &&& after == end
                &&& outcome == match failed {
                    Some(first) => Err::<(), Violation>(first),
                    None => Err::<(), Violation>(e),
                }
            },
            Flush::Deliver => failed matches Some(e) ==> outcome == Err::<(), Violation>(e),
        }
    }

    /// Whether an update that stood in this state when its work was done
    /// ends in the state `after` and returns `r`, where `out` is what the
    /// work produced and `failed` the failure it met, if any. A failure of
    /// the work is reported before one of the flush, which `lift` turns into
    /// the kind of failure that the update reports; a flush that leaves an
    /// effect undispatched reports `TooManyEffects`. Where a delivery is
    /// prepared in the flush, the callbacks decide the state and, if the
    /// work went well, whether the flush fails.
    pub open spec fn gives_back<R, E>(
        self,
        failed: Option<E>,
        lift: spec_fn(Violation) -> E,
        out: R,
        after: Self,
        r: Result<R, E>,
    ) -> bool {
        match self.ended() {
            Flush::Done(end, rest) => {
                &&& after == end
                &&& match failed {
                    Some(e) => r == Err::<R, E>(e),
                    None => if rest is None {
                        r == Ok::<R, E>(out)
                    } else {
                        r == Err::<R, E>(lift(Violation::TooManyEffects))
                    },
                }
            },
            Flush::Stop(e, end) => {
                &&& after == end
                &&& match failed {
                    Some(first) => r == Err::<R, E>(first),
                    None => r == Err::<R, E>(lift(e)),
                }
            },
            Flush::Deliver => {
                &&& failed matches Some(e) ==> r == Err::<R, E>(e)
                &&& r matches Ok(returned) ==> returned == out
            },
        }
    }

    /// The runtime after the value of an entity is handed back at the end of
    /// an update: in its slot, where the slot takes it.
    pub open spec fn handed_back(self, id: EntityId, type_tag: TypeTag, value: V) -> Self {
        if self.entities.restore_refusal(id, type_tag) is None {
            AppState { entities: self.entities.stored(id, value), ..self }
        } else {
            self
        }
    }

    /// The runtime after the value built for a new entity is handed over:
    /// in its slot, where the slot takes it.
    pub open spec fn handed_over(self, id: EntityId, type_tag: TypeTag, value: V) -> Self {
        if self.entities.insert_refusal(id, type_tag) is None {
            AppState { entities: self.entities.stored(id, value), ..self }
        } else {
            self
        }
    }

    /// The runtime after a global is handed back at the end of an update:
    /// in the table, where the table takes it.
    pub open spec fn global_handed_back(self, type_tag: TypeTag, value: V) -> Self {
        if self.globals.restore_refusal(type_tag) is None {
            AppState { globals: self.globals.stored(type_tag, value), ..self }
        } else {
            self
        }
    }

    /// The runtime after the state of a window is handed back at the end of
    /// an update: in the table, where the table takes it.
    pub open spec fn window_handed_back(self, id: crate::window::WindowId, value: V) -> Self {
        if self.windows.restore_refusal(id) is None {
            AppState { windows: self.windows.with_state(id, Some(value)), ..self }
        } else {
            self
        }
    }

    /// Whether the entities that a handler needs are live: the one it runs
    /// for and, when `with_target` is set, the one it watches.
    pub open spec fn reaches(self, handler: Handler<C>, with_target: bool) -> bool {
        &&& handler.this matches Some(this) ==> self.entities.is_live(this.id)
        &&& with_target ==> self.entities.is_live(handler.target.id)
    }

    /// The store after strong handles to the entities of a handler are
    /// handed out.
    pub open spec fn lent(self, handler: Handler<C>, with_target: bool) -> Entities<V> {
        let first = match handler.this {
            Some(this) => self.entities.shared(this.id),
            None => self.entities,
        };
        if with_target {
            first.shared(handler.target.id)
        } else {
            first
        }
    }

    /// Whether the counts of the entities of a handler leave room for two
    /// more strong handles each.
    pub open spec fn has_room(self, handler: Handler<C>) -> bool {
        &&& handler.this matches Some(this) ==> self.entities.strong_count(this.id) + 2
            <= usize::MAX
        &&& self.entities.strong_count(handler.target.id) + 2 <= usize::MAX
    }

    /// The runtime after everything filed under an entity is removed from
    /// every registry.
    pub open spec fn forgotten(self, id: EntityId) -> Self {
        AppState {
            observers: self.observers.without(id),
            event_handlers: self.event_handlers.without(id),
            release_handlers: self.release_handlers.without(id),
            ..self
        }
    }
}

impl<V, C> AppState<V, C> {
    /// `next` continues `self`: what is released in `self` is released in
    /// `next`, what is retired is retired, and the record of the effects
    /// pushed and popped is carried on. Every operation of the runtime leads
    /// from a well-formed state to one that continues it.
    pub open spec fn leads_to(self, next: Self) -> bool {
        &&& self.entities.leads_to(next.entities)
        &&& self.effects.leads_to(next.effects)
        &&& self.observers.leads_to(next.observers)
        &&& self.event_handlers.leads_to(next.event_handlers)
        &&& self.release_handlers.leads_to(next.release_handlers)
    }

    /// A state continues itself, and continuing is transitive: what holds
    /// of one operation holds of every sequence of them.
    pub proof fn lemma_leads_to_is_an_order(self, second: Self, third: Self)
        ensures
            self.leads_to(self),
            self.leads_to(second) && second.leads_to(third) ==> self.leads_to(third),
    {
        if self.leads_to(second) && second.leads_to(third) {
            assert forall|id: EntityId| self.entities.is_released(id) implies #[trigger] third.entities.is_released(
                id,
            ) by {
                assert(second.entities.is_released(id));
            }
            assert forall|id: u64| self.observers.is_retired(id) implies #[trigger] third.observers.is_retired(
                id,
            ) by {
                assert(second.observers.is_retired(id));
            }
            assert forall|id: u64| self.event_handlers.is_retired(id) implies #[trigger] third.event_handlers.is_retired(
                id,
            ) by {
                assert(second.event_handlers.is_retired(id));
            }
            assert forall|id: u64| self.release_handlers.is_retired(id) implies #[trigger] third.release_handlers.is_retired(
                id,
            ) by {
                assert(second.release_handlers.is_retired(id));
            }
        }
    }

    /// When the end of an update leaves the runtime idle, nothing waits in
    /// the queue, and every effect that was ever queued has been handed out
    /// exactly once, in the order in which it was queued. The end of an
    /// inner update hands out nothing and leaves the queue alone.
    pub proof fn lemma_flush_is_complete(self)
        requires
            self.wf(),
        ensures
            self.finished().wf(),
            self.finished().is_idle() ==> self.finished().effects.pending.len() == 0
                && self.finished().effects.dispatched == self.finished().effects.enqueued,
            self.next_effect() is None && self.depth <= 1 ==> self.finished().is_idle(),
            self.depth > 1 ==> self.next_effect() is None && self.finished().effects
                == self.effects,
            self.next_effect() matches Some(effect) ==> self.effects.pending.len() > 0 && effect
                == self.effects.pending[0] && self.finished().effects.dispatched
                == self.effects.dispatched.push(effect),
    {
        self.effects.lemma_popped_wf();
        if self.effects.pending.len() == 0 {
            self.effects.lemma_drained();
        }
    }

    /// Once a violation has ended the turns, or a delivery was prepared,
    /// the callbacks further down the list change nothing in what the
    /// turns come to.
    pub proof fn lemma_passed_sticks(
        self,
        relation: Relation,
        ids: Seq<u64>,
        k: int,
        payload: Option<TypeTag>,
    )
        requires
            0 <= k <= ids.len(),
            !(self.passed(relation, ids.take(k), payload) is Pass),
        ensures
            self.passed(relation, ids, payload) == self.passed(relation, ids.take(k), payload),
        decreases ids.len() - k,
    {
        if k < ids.len() {
            assert(ids.take(k + 1).drop_last() =~= ids.take(k));
            self.lemma_passed_sticks(relation, ids, k + 1, payload);
        } else {
            assert(ids.take(k) =~= ids);
        }
    }

    /// The same, for use where the turns may still be passing: where they
    /// are, nothing is claimed.
    pub proof fn lemma_passed_sticks_or_passes(
        self,
        relation: Relation,
        ids: Seq<u64>,
        k: int,
        payload: Option<TypeTag>,
    )
        requires
            0 <= k <= ids.len(),
        ensures
            !(self.passed(relation, ids.take(k), payload) is Pass) ==> self.passed(
                relation,
                ids,
                payload,
            ) == self.passed(relation, ids.take(k), payload),
    {
        if !(self.passed(relation, ids.take(k), payload) is Pass) {
            self.lemma_passed_sticks(relation, ids, k, payload);
        }
    }

    /// Where the end of an update leaves the runtime idle, it handed out
    /// nothing and the queue is drained.
    pub proof fn lemma_idle_is_drained(self, after: Self, next: Option<Effect<V, C>>)
        requires
            self.ends_in(after, next),
            after.is_idle(),
        ensures
            next is None,
            after.is_drained(),
    {
        if after.wf() {
            after.effects.lemma_drained();
        }
    }

    /// `next` is well formed and continues `self`.
    pub open spec fn keeps(self, next: Self) -> bool {
        next.wf() && self.leads_to(next)
    }

    /// Giving up a strong handle keeps a well-formed runtime well formed.
    pub proof fn lemma_release_keeps_wf(self, handle: Option<Handle>)
        requires
            self.wf(),
        ensures
            self.keeps(self.after_release(handle)),
    {
        self.lemma_leads_to_is_an_order(self, self);
        if let Some(handle) = handle {
            let op = StoreOp::Release { id: handle.id(), type_tag: handle.type_tag() };
            self.entities.lemma_apply_wf(op);
            self.entities.lemma_apply_leads(op);
            if let Some(entity) = self.entities.departing(handle.id()) {
                self.effects.lemma_pushed_wf(
                    Effect::Release {
                        entity_id: handle.id(),
                        entity_type: self.entities.slots[handle.id().0].type_tag,
                        entity,
                    },
                );
            }
        }
    }

    /// What the runtime does with a value that a closure or a callback
    /// hands back keeps a well-formed runtime well formed: putting the value
    /// of an entity back into its slot, storing the value built for a new
    /// entity, putting a global or the state of a window back, and taking
    /// back the handles of a delivery.
    pub proof fn lemma_handing_back_keeps_wf(
        self,
        id: EntityId,
        type_tag: TypeTag,
        value: V,
        on: Handle,
        this: Option<Handle>,
        target: Option<Handle>,
        window: crate::window::WindowId,
    )
        requires
            self.wf(),
        ensures
            self.keeps(self.handed_back(id, type_tag, value)),
            self.keeps(self.handed_over(id, type_tag, value)),
            self.keeps(self.global_handed_back(type_tag, value)),
            self.keeps(self.window_handed_back(window, value)),
            self.keeps(self.given_back(this, target)),
            self.keeps(self.settled(value, on, this, target).0),
    {
        self.lemma_leads_to_is_an_order(self, self);
        let back = StoreOp::EndLease { id, type_tag, entity: value };
        self.entities.lemma_apply_wf(back);
        self.entities.lemma_apply_leads(back);
        let over = StoreOp::Insert { id, type_tag, entity: value };
        self.entities.lemma_apply_wf(over);
        self.entities.lemma_apply_leads(over);
        self.lemma_release_keeps_wf(this);
        self.after_release(this).lemma_release_keeps_wf(target);
        self.lemma_leads_to_is_an_order(self.after_release(this), self.given_back(this, target));
        if self.entities.restore_refusal(on.id(), on.type_tag()) is None {
            let put = StoreOp::EndLease { id: on.id(), type_tag: on.type_tag(), entity: value };
            self.entities.lemma_apply_wf(put);
            self.entities.lemma_apply_leads(put);
            let restored = AppState { entities: self.entities.stored(on.id(), value), ..self };
            restored.lemma_release_keeps_wf(this);
            restored.after_release(this).lemma_release_keeps_wf(target);
            restored.lemma_leads_to_is_an_order(
                restored.after_release(this),
                restored.given_back(this, target),
            );
            self.lemma_leads_to_is_an_order(restored, restored.given_back(this, target));
        }
    }

    /// As far as the runtime alone decides the turns of a list of
    /// callbacks, they keep a well-formed runtime well formed.
    pub proof fn lemma_passed_keeps_wf(
        self,
        relation: Relation,
        ids: Seq<u64>,
        payload: Option<TypeTag>,
    )
        requires
            self.wf(),
        ensures
            match self.passed(relation, ids, payload) {
                Turn::Pass(end) => self.keeps(end),
                Turn::Stop(_, end) => self.keeps(end),
                Turn::Deliver => true,
            },
        decreases ids.len(),
    {
        self.lemma_leads_to_is_an_order(self, self);
        if ids.len() > 0 {
            self.lemma_passed_keeps_wf(relation, ids.drop_last(), payload);
            if let Turn::Pass(state) = self.passed(relation, ids.drop_last(), payload) {
                let op = RegistryOp::Remove { id: ids.last() };
                state.registry(relation).lemma_apply_wf(op);
                state.registry(relation).lemma_apply_leads(op);
                state.lemma_leads_to_is_an_order(state, state);
                if let Turn::Pass(end) = state.turn(relation, ids.last(), payload) {
                    self.lemma_leads_to_is_an_order(state, end);
                }
                if let Turn::Stop(_, end) = state.turn(relation, ids.last(), payload) {
                    self.lemma_leads_to_is_an_order(state, end);
                }
            }
        }
    }

    /// As far as the runtime alone decides the dispatch of an effect, the
    /// dispatch keeps a well-formed runtime well formed.
    pub proof fn lemma_dispatched_keeps_wf(self, effect: Effect<V, C>)
        requires
            self.wf(),
        ensures
            match self.dispatched(effect) {
                Turn::Pass(end) => self.keeps(end),
                Turn::Stop(_, end) => self.keeps(end),
                Turn::Deliver => true,
            },
    {
        match effect {
            Effect::Notify { emitter } => {
                self.lemma_passed_keeps_wf(Relation::Observe, self.observers.ids_of(emitter), None);
            },
            Effect::Emit { emitter, event_type, .. } => {
                self.lemma_passed_keeps_wf(
                    Relation::Subscribe,
                    self.event_handlers.ids_of(emitter),
                    Some(event_type),
                );
            },
            Effect::Release { entity_id, entity_type, .. } => {
                self.lemma_passed_keeps_wf(
                    Relation::Release,
                    self.release_handlers.ids_of(entity_id),
                    Some(entity_type),
                );
                if let Turn::Pass(end) = self.passed(
                    Relation::Release,
                    self.release_handlers.ids_of(entity_id),
                    Some(entity_type),
                ) {
                    let op = RegistryOp::RemoveEmitter { emitter: entity_id };
                    end.observers.lemma_apply_wf(op);
                    end.observers.lemma_apply_leads(op);
                    end.event_handlers.lemma_apply_wf(op);
                    end.event_handlers.lemma_apply_leads(op);
                    end.release_handlers.lemma_apply_wf(op);
                    end.release_handlers.lemma_apply_leads(op);
                    end.lemma_leads_to_is_an_order(end, end);
                    self.lemma_leads_to_is_an_order(end, end.forgotten(entity_id));
                }
            },
            Effect::Defer { .. } => {},
        }
    }

    /// As far as the runtime alone decides a flush, it keeps a well-formed
    /// runtime well formed: no entity comes back, no callback comes back,
    /// and the record of the queue is carried on.
    pub proof fn lemma_flushed_keeps_wf(self, next: Option<Effect<V, C>>, limit: nat)
        requires
            self.wf(),
        ensures
            match self.flushed(next, limit) {
                Flush::Done(end, _) => self.keeps(end),
                Flush::Stop(_, end) => self.keeps(end),
                Flush::Deliver => true,
            },
        decreases limit,
    {
        self.lemma_leads_to_is_an_order(self, self);
        if let Some(effect) = next {
            if limit > 0 {
                self.lemma_dispatched_keeps_wf(effect);
                if let Turn::Pass(end) = self.dispatched(effect) {
                    end.lemma_flush_is_complete();
                    end.effects.lemma_popped_wf();
                    end.lemma_leads_to_is_an_order(end, end);
                    let after = end.finished();
                    assert(end.leads_to(after));
                    self.lemma_leads_to_is_an_order(end, after);
                    after.lemma_flushed_keeps_wf(end.next_effect(), (limit - 1) as nat);
                    match after.flushed(end.next_effect(), (limit - 1) as nat) {
                        Flush::Done(last, _) => {
                            self.lemma_leads_to_is_an_order(after, last);
                        },
                        Flush::Stop(_, last) => {
                            self.lemma_leads_to_is_an_order(after, last);
                        },
                        Flush::Deliver => {},
                    }
                }
            }
        }
    }

    /// As far as the runtime alone decides the end of an update, the flush
    /// of the outermost one included, it keeps a well-formed runtime well
    /// formed.
    pub proof fn lemma_ended_keeps_wf(self)
        requires
            self.wf(),
        ensures
            match self.ended() {
                Flush::Done(end, _) => self.keeps(end),
                Flush::Stop(_, end) => self.keeps(end),
                Flush::Deliver => true,
            },
    {
        self.lemma_flush_is_complete();
        self.effects.lemma_popped_wf();
        self.lemma_leads_to_is_an_order(self, self);
        let first = self.finished();
        assert(self.leads_to(first));
        first.lemma_flushed_keeps_wf(self.next_effect(), usize::MAX as nat);
        match self.ended() {
            Flush::Done(last, _) => {
                self.lemma_leads_to_is_an_order(first, last);
            },
            Flush::Stop(_, last) => {
                self.lemma_leads_to_is_an_order(first, last);
            },
            Flush::Deliver => {},
        }
    }

    /// An update that ends without a delivery being prepared keeps a
    /// well-formed runtime well formed, whether it succeeds or fails:
    /// `self` is the runtime as the work of the update left it, with what
    /// was handed back in its place.
    pub proof fn lemma_update_keeps_wf<R, E>(
        self,
        failed: Option<E>,
        lift: spec_fn(Violation) -> E,
        out: R,
        after: Self,
        r: Result<R, E>,
        outcome: Result<(), Violation>,
    )
        requires
            self.wf(),
            !(self.ended() is Deliver),
        ensures
            self.gives_back(failed, lift, out, after, r) ==> self.keeps(after),
            self.closes(None, after, outcome) ==> self.keeps(after),
    {
        self.lemma_ended_keeps_wf();
    }

    /// The end of an inner update leaves the queue to the flush of the
    /// outermost one: nothing is handed out and nothing is dispatched, the
    /// update cannot fail at its end, and the runtime is as the work of the
    /// update left it, one update less under way.
    pub proof fn lemma_inner_update_leaves_the_queue(self)
        requires
            self.depth > 1,
        ensures
            self.ended() == Flush::Done(
                AppState { depth: (self.depth - 1) as usize, ..self },
                None,
            ),
    {
    }

    /// As far as the runtime alone decides the turns of a list of
    /// callbacks, they touch the registry of their relationship and nothing
    /// else.
    pub proof fn lemma_passed_touches_one_registry(
        self,
        relation: Relation,
        ids: Seq<u64>,
        payload: Option<TypeTag>,
    )
        ensures
            match self.passed(relation, ids, payload) {
                Turn::Pass(end) => end == self.with_registry(relation, end.registry(relation)),
                Turn::Stop(_, end) => end == self.with_registry(relation, end.registry(relation)),
                Turn::Deliver => true,
            },
        decreases ids.len(),
    {
        if ids.len() > 0 {
            self.lemma_passed_touches_one_registry(relation, ids.drop_last(), payload);
        }
    }

    /// A flush that the runtime alone decides and that ends with nothing
    /// left to dispatch leaves the runtime idle with an empty queue; if the
    /// runtime was well formed, every effect that was ever queued has then
    /// been handed out exactly once, in the order in which it was queued.
    pub proof fn lemma_flush_ends_idle(self, next: Option<Effect<V, C>>, limit: nat)
        requires
            match next {
                Some(_) => self.depth == 1,
                None => self.depth == 0 && self.effects.pending.len() == 0,
            },
        ensures
            self.flushed(next, limit) matches Flush::Done(end, None) ==> {
                &&& end.is_idle()
                &&& end.effects.pending.len() == 0
                &&& self.wf() ==> end.wf() && end.effects.dispatched == end.effects.enqueued
                    && self.effects.enqueued.is_prefix_of(end.effects.enqueued)
            },
        decreases limit,
    {
        if let Some(effect) = next {
            if limit > 0 {
                match effect {
                    Effect::Notify { emitter } => {
                        self.lemma_passed_touches_one_registry(
                            Relation::Observe,
                            self.observers.ids_of(emitter),
                            None,
                        );
                    },
                    Effect::Emit { emitter, event_type, .. } => {
                        self.lemma_passed_touches_one_registry(
                            Relation::Subscribe,
                            self.event_handlers.ids_of(emitter),
                            Some(event_type),
                        );
                    },
                    Effect::Release { entity_id, entity_type, .. } => {
                        self.lemma_passed_touches_one_registry(
                            Relation::Release,
                            self.release_handlers.ids_of(entity_id),
                            Some(entity_type),
                        );
                    },
                    Effect::Defer { .. } => {},
                }
                if let Turn::Pass(end) = self.dispatched(effect) {
                    end.finished().lemma_flush_ends_idle(end.next_effect(), (limit - 1) as nat);
                }
            }
        }
        if self.wf() {
            self.lemma_flushed_keeps_wf(next, limit);
            if let Flush::Done(end, None) = self.flushed(next, limit) {
                end.effects.lemma_drained();
            }
        }
    }

    /// The outermost update, where the runtime alone decides its end and
    /// the end succeeds, leaves the runtime idle with an empty queue and
    /// every effect handed out once, in the order of the queue.
    pub proof fn lemma_update_ends_idle(self)
        requires
            self.depth == 1,
        ensures
            self.ended() matches Flush::Done(end, None) ==> {
                &&& end.is_idle()
                &&& end.effects.pending.len() == 0
                &&& self.wf() ==> end.wf() && end.effects.dispatched == end.effects.enqueued
                    && self.effects.enqueued.is_prefix_of(end.effects.enqueued)
            },
    {
        self.finished().lemma_flush_ends_idle(self.next_effect(), usize::MAX as nat);
        if self.wf() {
            self.lemma_flush_is_complete();
        }
    }

    /// As far as the runtime alone decides a flush, the flush touches
    /// neither entities nor globals nor windows: it changes the queue, the
    /// count of updates and the registries, and nothing else.
    pub proof fn lemma_flushed_keeps_the_store(self, next: Option<Effect<V, C>>, limit: nat)
        ensures
            match self.flushed(next, limit) {
                Flush::Done(end, _) => end.holds_what(self),
                Flush::Stop(_, end) => end.holds_what(self),
                Flush::Deliver => true,
            },
        decreases limit,
    {
        if let Some(effect) = next {
            if limit > 0 {
                match effect {
                    Effect::Notify { emitter } => {
                        self.lemma_passed_touches_one_registry(
                            Relation::Observe,
                            self.observers.ids_of(emitter),
                            None,
                        );
                    },
                    Effect::Emit { emitter, event_type, .. } => {
                        self.lemma_passed_touches_one_registry(
                            Relation::Subscribe,
                            self.event_handlers.ids_of(emitter),
                            Some(event_type),
                        );
                    },
                    Effect::Release { entity_id, entity_type, .. } => {
                        self.lemma_passed_touches_one_registry(
                            Relation::Release,
                            self.release_handlers.ids_of(entity_id),
                            Some(entity_type),
                        );
                    },
                    Effect::Defer { .. } => {},
                }
                if let Turn::Pass(end) = self.dispatched(effect) {
                    end.finished().lemma_flushed_keeps_the_store(
                        end.next_effect(),
                        (limit - 1) as nat,
                    );
                }
            }
        }
    }

    /// The same of the end of an update, the flush of the outermost one
    /// included.
    pub proof fn lemma_ended_keeps_the_store(self)
        ensures
            match self.ended() {
                Flush::Done(end, _) => end.holds_what(self),
                Flush::Stop(_, end) => end.holds_what(self),
                Flush::Deliver => true,
            },
    {
        self.finished().lemma_flushed_keeps_the_store(self.next_effect(), usize::MAX as nat);
    }

    /// `self` holds the entities, globals and windows that `before` holds,
    /// each as it is there.
    pub open spec fn holds_what(self, before: Self) -> bool {
        &&& self.entities == before.entities
        &&& self.globals == before.globals
        &&& self.windows == before.windows
        &&& self.dirty == before.dirty
    }

    /// A new entity is stored with its first share. `self` is the runtime
    /// as the builder left it, with the slot of the new entity still
    /// waiting for its value; `after` and `r` are how the creation ended,
    /// with no callback run in its flush. Then the creation succeeded
    /// unless the flush stopped, the slot holds the value that was built,
    /// a strong share of it exists, so that a weak handle to it can be
    /// upgraded, every other slot is as the builder left it, and a slot
    /// exists exactly where a strong share does.
    pub proof fn lemma_new_entity_is_stored(
        self,
        id: EntityId,
        type_tag: TypeTag,
        value: V,
        lift: spec_fn(Violation) -> Violation,
        after: Self,
        r: Result<(), Violation>,
    )
        requires
            self.wf(),
            self.entities.insert_refusal(id, type_tag) is None,
            !(self.handed_over(id, type_tag, value).ended() is Deliver),
            self.handed_over(id, type_tag, value).gives_back(
                self.entities.insert_refusal(id, type_tag),
                lift,
                (),
                after,
                r,
            ),
        ensures
            self.keeps(after),
            self.handed_over(id, type_tag, value).ended() is Done ==> r is Ok || r == Err::<
                (),
                Violation,
            >(lift(Violation::TooManyEffects)),
            after.entities.is_present(id),
            after.entities.value(id) == value,
            after.entities.strong_count(id) >= 1,
            after.entities.strong_count(id) == self.entities.strong_count(id),
            forall|other: EntityId|
                other != id ==> (#[trigger] after.entities.is_live(other)
                    == self.entities.is_live(other)) && (self.entities.is_live(other)
                    ==> after.entities.slots[other.0] == self.entities.slots[other.0]),
            forall|any: EntityId| #[trigger]
                after.entities.is_live(any) <==> after.entities.strong_count(any) >= 1,
    {
        let stored = self.handed_over(id, type_tag, value);
        let over = StoreOp::Insert { id, type_tag, entity: value };
        self.entities.lemma_apply_wf(over);
        self.entities.lemma_apply_leads(over);
        self.lemma_leads_to_is_an_order(self, self);
        stored.lemma_ended_keeps_wf();
        stored.lemma_ended_keeps_the_store();
        self.lemma_leads_to_is_an_order(stored, after);
    }

    /// An updated entity is stored as the update left it. `self` is the
    /// runtime as the update left it, with the value of the entity still
    /// out of its slot; `after` and `r` are how the update ended, with no
    /// callback run in its flush. Then the slot holds the value as the
    /// update left it, with the strong shares it had, every other slot is
    /// as the update left it, and a slot exists exactly where a strong
    /// share does.
    pub proof fn lemma_updated_entity_is_stored<R>(
        self,
        id: EntityId,
        type_tag: TypeTag,
        value: V,
        lift: spec_fn(Violation) -> Violation,
        out: R,
        after: Self,
        r: Result<R, Violation>,
    )
        requires
            self.wf(),
            self.entities.restore_refusal(id, type_tag) is None,
            !(self.handed_back(id, type_tag, value).ended() is Deliver),
            self.handed_back(id, type_tag, value).gives_back(
                self.entities.restore_refusal(id, type_tag),
                lift,
                out,
                after,
                r,
            ),
        ensures
            self.keeps(after),
            r matches Ok(returned) ==> returned == out,
            self.handed_back(id, type_tag, value).ended() is Done ==> r == Ok::<R, Violation>(out)
                || r == Err::<R, Violation>(lift(Violation::TooManyEffects)),
            after.entities.is_present(id),
            after.entities.value(id) == value,
            after.entities.strong_count(id) == self.entities.strong_count(id),
            forall|other: EntityId|
                other != id ==> (#[trigger] after.entities.is_live(other)
                    == self.entities.is_live(other)) && (self.entities.is_live(other)
                    ==> after.entities.slots[other.0] == self.entities.slots[other.0]),
            forall|any: EntityId| #[trigger]
                after.entities.is_live(any) <==> after.entities.strong_count(any) >= 1,
    {
        let stored = self.handed_back(id, type_tag, value);
        let back = StoreOp::EndLease { id, type_tag, entity: value };
        self.entities.lemma_apply_wf(back);
        self.entities.lemma_apply_leads(back);
        self.lemma_leads_to_is_an_order(self, self);
        stored.lemma_ended_keeps_wf();
        stored.lemma_ended_keeps_the_store();
        self.lemma_leads_to_is_an_order(stored, after);
    }

    /// Forgetting a released entity leaves what is filed under every other
    /// entity as it is, in every registry.
    pub proof fn lemma_forgotten_keeps_others(self, id: EntityId, other: EntityId)
        requires
            other != id,
        ensures
            forall|relation: Relation| #[trigger]
                self.forgotten(id).registry(relation).ids_of(other) == self.registry(
                    relation,
                ).ids_of(other),
            forall|relation: Relation| #[trigger]
                self.forgotten(id).registry(relation).of(other) == self.registry(relation).of(
                    other,
                ),
    {
        self.observers.lemma_without_keeps_others(id, other);
        self.event_handlers.lemma_without_keeps_others(id, other);
        self.release_handlers.lemma_without_keeps_others(id, other);
    }

    /// Nobody hears the effect: it is no deferred callback, and nothing is
    /// registered under the entity it speaks of.
    pub open spec fn is_unheard(self, effect: Effect<V, C>) -> bool {
        !(effect is Defer) && self.listed_for(effect).len() == 0
    }

    /// The runtime after the dispatch of an effect that nobody hears: as it
    /// was or, for a release, with the entity forgotten by every registry.
    pub open spec fn after_unheard(self, effect: Effect<V, C>) -> Self {
        match effect {
            Effect::Release { entity_id, .. } => self.forgotten(entity_id),
            _ => self,
        }
    }

    /// Nobody hears `next`, nor any effect that waits.
    pub open spec fn is_quiet(self, next: Option<Effect<V, C>>) -> bool {
        &&& next matches Some(effect) ==> self.is_unheard(effect)
        &&& forall|i: int|
            0 <= i < self.effects.pending.len() ==> self.is_unheard(
                #[trigger] self.effects.pending[i],
            )
    }

    /// The dispatch of an effect that nobody hears runs nothing and cannot
    /// fail, and what nobody heard before it nobody hears after it.
    pub proof fn lemma_unheard_is_passed(self, effect: Effect<V, C>)
        requires
            self.is_unheard(effect),
        ensures
            self.dispatched(effect) == Turn::Pass(self.after_unheard(effect)),
            forall|other: Effect<V, C>|
                self.is_unheard(other) ==> #[trigger] self.after_unheard(effect).is_unheard(
                    other,
                ),
    {
        let ids = self.listed_for(effect);
        assert(ids =~= Seq::<u64>::empty());
        if let Effect::Release { entity_id, .. } = effect {
            let end = self.forgotten(entity_id);
            assert forall|other: Effect<V, C>| self.is_unheard(other) implies end.is_unheard(
                other,
            ) by {
                match other {
                    Effect::Notify { emitter } => {
                        lemma_select_narrows(
                            self.observers.entries,
                            Key::NotEmitter(entity_id),
                            Key::Emitter(emitter),
                        );
                    },
                    Effect::Emit { emitter, .. } => {
                        lemma_select_narrows(
                            self.event_handlers.entries,
                            Key::NotEmitter(entity_id),
                            Key::Emitter(emitter),
                        );
                    },
                    Effect::Release { entity_id: other_id, .. } => {
                        lemma_select_narrows(
                            self.release_handlers.entries,
                            Key::NotEmitter(entity_id),
                            Key::Emitter(other_id),
                        );
                    },
                    Effect::Defer { .. } => {},
                }
            }
        }
    }

    /// A flush in a runtime where nobody hears what waits succeeds: it runs
    /// no callback, hands out every effect in the order of the queue, and
    /// leaves the runtime idle with an empty queue. Entities, globals and
    /// windows stay as they are.
    pub proof fn lemma_quiet_flush_succeeds(self, next: Option<Effect<V, C>>, limit: nat)
        requires
            self.is_quiet(next),
            match next {
                Some(_) => self.depth == 1,
                None => self.depth == 0 && self.effects.pending.len() == 0,
            },
            next is Some ==> self.effects.pending.len() < limit,
        ensures
            self.flushed(next, limit) matches Flush::Done(end, rest) && {
                &&& rest is None
                &&& end.is_idle()
                &&& end.effects.pending.len() == 0
                &&& end.effects.enqueued == self.effects.enqueued
                &&& end.effects.dispatched == self.effects.dispatched + self.effects.pending
                &&& end.entities == self.entities
                &&& end.globals == self.globals
                &&& end.windows == self.windows
                &&& end.dirty == self.dirty
            },
        decreases limit,
    {
        match next {
            None => {
                assert(self.effects.dispatched + self.effects.pending
                    =~= self.effects.dispatched);
            },
            Some(effect) => {
                self.lemma_unheard_is_passed(effect);
                let end = self.after_unheard(effect);
                let after = end.finished();
                let handed = end.next_effect();
                assert(end.effects == self.effects);
                assert forall|i: int| 0 <= i < after.effects.pending.len() implies after.is_unheard(
                    #[trigger] after.effects.pending[i],
                ) by {
                    let waiting = self.effects.pending[i + 1];
                    assert(self.is_unheard(waiting));
                    assert(end.is_unheard(waiting));
                    assert(after.effects.pending[i] == waiting);
                }
                if handed is Some {
                    assert(self.is_unheard(self.effects.pending[0]));
                    assert(end.is_unheard(self.effects.pending[0]));
                }
                after.lemma_quiet_flush_succeeds(handed, (limit - 1) as nat);
                assert(after.effects.dispatched + after.effects.pending
                    =~= self.effects.dispatched + self.effects.pending);
            },
        }
    }

    /// The outermost update of a runtime where nobody hears what waits ends
    /// well: whatever was queued in it is handed out, in order, and the
    /// runtime is idle again.
    pub proof fn lemma_quiet_update_ends_idle(self)
        requires
            self.depth == 1,
            self.is_quiet(None),
            self.effects.pending.len() <= usize::MAX,
        ensures
            self.ended() matches Flush::Done(end, rest) && {
                &&& rest is None
                &&& end.is_idle()
                &&& end.effects.pending.len() == 0
                &&& end.effects.enqueued == self.effects.enqueued
                &&& end.effects.dispatched == self.effects.dispatched + self.effects.pending
                &&& end.entities == self.entities
                &&& end.globals == self.globals
                &&& end.windows == self.windows
            },
    {
        let after = self.finished();
        let handed = self.next_effect();
        assert forall|i: int| 0 <= i < after.effects.pending.len() implies after.is_unheard(
            #[trigger] after.effects.pending[i],
        ) by {
            assert(self.is_unheard(self.effects.pending[i + 1]));
            assert(after.effects.pending[i] == self.effects.pending[i + 1]);
        }
        if handed is Some {
            assert(self.is_unheard(self.effects.pending[0]));
        }
        after.lemma_quiet_flush_succeeds(handed, usize::MAX as nat);
        assert(after.effects.dispatched + after.effects.pending =~= self.effects.dispatched
            + self.effects.pending);
    }

    /// A callback removed from its registry is never delivered again: in
    /// every state that continues this one it is not found, so no delivery
    /// of it is prepared, and it is in no list of callbacks to deliver.
    pub proof fn lemma_retired_is_never_delivered(
        self,
        next: Self,
        relation: Relation,
        id: u64,
        emitter: EntityId,
        i: int,
    )
        requires
            self.registry(relation).is_retired(id),
            self.leads_to(next),
        ensures
            next.registry(relation).find(id) is None,
            0 <= i < next.registry(relation).ids_of(emitter).len() ==> next.registry(
                relation,
            ).ids_of(emitter)[i] != id,
    {
        assert(next.registry(relation).is_retired(id));
        if 0 <= i < next.registry(relation).ids_of(emitter).len() {
            next.registry(relation).lemma_listed_is_registered(emitter, i);
        }
    }

    /// A released entity stays released: in every state that continues this
    /// one an upgrade finds nothing, a callback that watches the entity is
    /// not to be called, and a further release of it is refused, so that its
    /// release is queued once and no more.
    pub proof fn lemma_released_is_never_reached(
        self,
        next: Self,
        handler: Handler<C>,
        type_tag: TypeTag,
    )
        requires
            self.entities.is_released(handler.target.id),
            self.leads_to(next),
        ensures
            !next.entities.is_live(handler.target.id),
            !next.reaches(handler, true),
            next.entities.release_refusal(handler.target.id, type_tag) == Some(
                Violation::Released,
            ),
            next.entities.lease_refusal(handler.target.id, type_tag) == Some(Violation::Released),
    {
        assert(next.entities.is_released(handler.target.id));
    }

    /// The release of an entity is queued exactly when its last strong
    /// share is given up, with the value that left the store; the entity is
    /// released from then on.
    pub proof fn lemma_release_is_queued_with_the_last_share(self, id: EntityId, type_tag: TypeTag)
        requires
            self.wf(),
            self.entities.release_refusal(id, type_tag) is None,
        ensures
            self.entities.strong_count(id) > 1 ==> self.released(id).effects == self.effects
                && self.released(id).entities.is_live(id),
            self.entities.strong_count(id) == 1 ==> self.released(id).entities.is_released(id)
                && self.released(id).effects.enqueued == self.effects.enqueued.push(
                Effect::Release {
                    entity_id: id,
                    entity_type: type_tag,
                    entity: self.entities.value(id),
                },
            ),
            self.entities.strong_count(id) >= 1,
    {
    }

    /// While the value of an entity is out of the store for an update, every
    /// further attempt to take it out is refused: with `Absent` under the
    /// entity's own type tag, with `TypeMismatch` under any other.
    pub proof fn lemma_update_is_not_reentrant(self, id: EntityId, type_tag: TypeTag)
        requires
            self.entities.is_leased(id),
        ensures
            self.entities.lease_refusal(id, type_tag) == Some(Violation::Absent)
                || self.entities.lease_refusal(id, type_tag) == Some(Violation::TypeMismatch),
            self.entities.lease_refusal(id, self.entities.slots[id.0].type_tag) == Some(
                Violation::Absent,
            ),
    {
    }
}

} // verus!
