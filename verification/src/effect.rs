use crate::entity::{EntityId, TypeTag};
use std::collections::VecDeque;
use vstd::prelude::*;

verus! {

/// A notification that waits in the queue until the next flush.
pub enum Effect<V, C> {
    /// The emitter changed: its observers are to be told.
    Notify { emitter: EntityId },
    /// The emitter sent an event: its subscribers are to receive it.
    Emit { emitter: EntityId, event_type: TypeTag, event: V },
    /// The last strong handle of the entity was given up: its value left the
    /// store and waits here for those who watch its release.
    Release { entity_id: EntityId, entity_type: TypeTag, entity: V },
    /// A callback to run with the outer context.
    Defer { callback: C },
}

/// The queue as a mathematical value: what waits in it, and the record of
/// everything that ever entered it and left it.
pub struct Effects<V, C> {
    /// The effects that wait, oldest first.
    pub pending: Seq<Effect<V, C>>,
    /// Every effect that was ever pushed, in the order of the pushes.
    pub enqueued: Seq<Effect<V, C>>,
    /// Every effect that was ever popped, in the order of the pops.
    pub dispatched: Seq<Effect<V, C>>,
}

impl<V, C> Effects<V, C> {
    pub open spec fn empty() -> Self {
        Effects { pending: Seq::empty(), enqueued: Seq::empty(), dispatched: Seq::empty() }
    }

    /// What was pushed is what was popped, followed by what still waits: no
    /// effect is lost, none is handed out twice, and none overtakes another.
    pub open spec fn wf(self) -> bool {
        self.enqueued == self.dispatched + self.pending
    }

    /// The queue after a push.
    pub open spec fn pushed(self, effect: Effect<V, C>) -> Self {
        Effects {
            pending: self.pending.push(effect),
            enqueued: self.enqueued.push(effect),
            dispatched: self.dispatched,
        }
    }

    /// The queue after a pop: the oldest effect leaves, if there is one.
    pub open spec fn popped(self) -> Self {
        if self.pending.len() == 0 {
            self
        } else {
            Effects {
                pending: self.pending.skip(1),
                enqueued: self.enqueued,
                dispatched: self.dispatched.push(self.pending[0]),
            }
        }
    }

    /// The effect that a pop hands out.
    pub open spec fn front(self) -> Option<Effect<V, C>> {
        if self.pending.len() == 0 {
            None
        } else {
            Some(self.pending[0])
        }
    }

    /// The record of `next` continues the record of `self`: what was pushed
    /// and popped before is still there, in its place.
    pub open spec fn leads_to(self, next: Self) -> bool {
        &&& self.enqueued.is_prefix_of(next.enqueued)
        &&& self.dispatched.is_prefix_of(next.dispatched)
    }

    /// A push keeps the record true.
    pub proof fn lemma_pushed_wf(self, effect: Effect<V, C>)
        requires
            self.wf(),
        ensures
            self.pushed(effect).wf(),
            self.leads_to(self.pushed(effect)),
    {
        assert(self.enqueued.push(effect) =~= self.dispatched + self.pending.push(effect));
    }

    /// A pop keeps the record true.
    pub proof fn lemma_popped_wf(self)
        requires
            self.wf(),
        ensures
            self.popped().wf(),
            self.leads_to(self.popped()),
    {
        if self.pending.len() > 0 {
            assert(self.enqueued =~= self.dispatched.push(self.pending[0]) + self.pending.skip(
                1,
            ));
        }
    }

    /// When nothing waits, every effect that was ever pushed has been handed
    /// out exactly once, in the order of the pushes.
    pub proof fn lemma_drained(self)
        requires
            self.wf(),
            self.pending.len() == 0,
        ensures
            self.dispatched == self.enqueued,
    {
        assert(self.dispatched + self.pending =~= self.dispatched);
    }

    /// At any time, the effects handed out so far are the first of those
    /// pushed, in the same order.
    pub proof fn lemma_fifo(self, i: int)
        requires
            self.wf(),
            0 <= i < self.dispatched.len(),
        ensures
            self.dispatched.len() <= self.enqueued.len(),
            self.dispatched[i] == self.enqueued[i],
    {
    }
}

/// The pending effects, first in, first out.
pub struct EffectQueue<V, C> {
    pending: VecDeque<Effect<V, C>>,
    enqueued: Ghost<Seq<Effect<V, C>>>,
    dispatched: Ghost<Seq<Effect<V, C>>>,
}

impl<V, C> View for EffectQueue<V, C> {
    type V = Effects<V, C>;

    closed spec fn view(&self) -> Effects<V, C> {
        Effects { pending: self.pending@, enqueued: self.enqueued@, dispatched: self.dispatched@ }
    }
}

impl<V, C> EffectQueue<V, C> {
    pub fn new() -> (queue: Self)
        ensures
            queue@ == Effects::<V, C>::empty(),
            queue@.wf(),
    {
        EffectQueue {
            pending: VecDeque::new(),
            enqueued: Ghost(Seq::empty()),
            dispatched: Ghost(Seq::empty()),
        }
    }

    /// Appends an effect behind all that wait.
    pub fn push(&mut self, effect: Effect<V, C>)
        ensures
            final(self)@ == old(self)@.pushed(effect),
            old(self)@.wf() ==> final(self)@.wf() && old(self)@.leads_to(final(self)@),
    {
        proof {
            self@.lemma_pushed_wf_if(effect);
        }
        self.enqueued = Ghost(self.enqueued@.push(effect));
        self.pending.push_back(effect);
    }

    /// Takes out the oldest effect.
    pub fn pop(&mut self) -> (effect: Option<Effect<V, C>>)
        ensures
            effect == old(self)@.front(),
            final(self)@ == old(self)@.popped(),
            old(self)@.wf() ==> final(self)@.wf() && old(self)@.leads_to(final(self)@),
    {
        proof {
            self@.lemma_popped_wf_if();
        }
        match self.pending.pop_front() {
            None => None,
            Some(effect) => {
                self.dispatched = Ghost(self.dispatched@.push(effect));
                assert(self@.pending =~= old(self)@.pending.skip(1));
                Some(effect)
            },
        }
    }

    pub fn len(&self) -> (n: usize)
        ensures
            n == self@.pending.len(),
    {
        self.pending.len()
    }

    pub fn is_empty(&self) -> (empty: bool)
        ensures
            empty == (self@.pending.len() == 0),
    {
        self.pending.len() == 0
    }
}

impl<V, C> Effects<V, C> {
    proof fn lemma_pushed_wf_if(self, effect: Effect<V, C>)
        ensures
            self.wf() ==> self.pushed(effect).wf() && self.leads_to(self.pushed(effect)),
    {
        if self.wf() {
            self.lemma_pushed_wf(effect);
        }
    }

    proof fn lemma_popped_wf_if(self)
        ensures
            self.wf() ==> self.popped().wf() && self.leads_to(self.popped()),
    {
        if self.wf() {
            self.lemma_popped_wf();
        }
    }
}

} // verus!
