use crate::error::{BridgeError, Violation};
use std::collections::HashMap;
use vstd::prelude::*;

verus! {

broadcast use vstd::std_specs::hash::group_hash_axioms;

/// Identity of a window. Identifiers are issued in increasing order and are
/// never issued twice.
#[derive(Clone, Copy, Debug, PartialEq, Eq, Hash, Structural)]
pub struct WindowId(pub u64);

/// The state of a window taken out of the table for the time of a read or
/// an update.
pub struct WindowLease<V> {
    window: V,
    id: WindowId,
}

impl<V> WindowLease<V> {
    /// The state as it stands now.
    pub closed spec fn value(&self) -> V {
        self.window
    }

    pub closed spec fn id(&self) -> WindowId {
        self.id
    }

    pub fn window(&self) -> (window: &V)
        ensures
            *window == self.value(),
    {
        &self.window
    }

    /// The state, to be changed in place.
    pub fn window_mut(&mut self) -> (window: &mut V)
        ensures
            *window == old(self).value(),
            final(self).value() == *final(window),
            final(self).id() == old(self).id(),
    {
        &mut self.window
    }

    pub fn window_id(&self) -> (id: WindowId)
        ensures
            id == self.id(),
    {
        self.id
    }
}

/// One open window as a mathematical value.
pub struct Window<V, C> {
    /// The state of the window, or nothing while it is out of the table.
    pub state: Option<V>,
    /// The callbacks that wait for the window's next frame, oldest first.
    pub next_frame: Seq<C>,
}

/// The table of windows as a mathematical value.
pub struct Windows<V, C> {
    pub slots: Map<u64, Window<V, C>>,
    pub next_id: u64,
}

impl<V, C> Windows<V, C> {
    pub open spec fn empty() -> Self {
        Windows { slots: Map::empty(), next_id: 0 }
    }

    /// The window is open.
    pub open spec fn is_open(self, id: WindowId) -> bool {
        self.slots.contains_key(id.0)
    }

    /// The state of the window is in the table.
    pub open spec fn is_present(self, id: WindowId) -> bool {
        self.is_open(id) && self.slots[id.0].state is Some
    }

    /// The stored state of the window.
    pub open spec fn value(self, id: WindowId) -> V
        recommends
            self.is_present(id),
    {
        self.slots[id.0].state->Some_0
    }

    /// Why the state of a window cannot be taken out, if it cannot.
    pub open spec fn lease_refusal(self, id: WindowId) -> Option<BridgeError> {
        if !self.is_open(id) {
            Some(BridgeError::WindowNotFound)
        } else if !self.is_present(id) {
            Some(BridgeError::Violation(Violation::Absent))
        } else {
            None
        }
    }

    /// Why the state of a window cannot be put back, if it cannot: the
    /// window may have been closed in the meantime.
    pub open spec fn restore_refusal(self, id: WindowId) -> Option<BridgeError> {
        if !self.is_open(id) {
            Some(BridgeError::WindowNotFound)
        } else if self.is_present(id) {
            Some(BridgeError::Violation(Violation::NotLeased))
        } else {
            None
        }
    }

    /// The table after a window is opened.
    pub open spec fn opened(self, state: V) -> Self {
        Windows {
            slots: self.slots.insert(
                self.next_id,
                Window { state: Some(state), next_frame: Seq::empty() },
            ),
            next_id: (self.next_id + 1) as u64,
        }
    }

    /// The table after a window is closed.
    pub open spec fn closed(self, id: WindowId) -> Self {
        Windows { slots: self.slots.remove(id.0), next_id: self.next_id }
    }

    /// The table after the state of a window is replaced.
    pub open spec fn with_state(self, id: WindowId, state: Option<V>) -> Self {
        Windows {
            slots: self.slots.insert(
                id.0,
                Window { state, next_frame: self.slots[id.0].next_frame },
            ),
            next_id: self.next_id,
        }
    }

    /// The table after the callbacks that wait for a window's next frame are
    /// replaced.
    pub open spec fn with_next_frame(self, id: WindowId, next_frame: Seq<C>) -> Self {
        Windows {
            slots: self.slots.insert(
                id.0,
                Window { state: self.slots[id.0].state, next_frame },
            ),
            next_id: self.next_id,
        }
    }

    /// The callbacks that wait for a window's next frame; none for a window
    /// that is not open.
    pub open spec fn waiting(self, id: WindowId) -> Seq<C> {
        if self.is_open(id) {
            self.slots[id.0].next_frame
        } else {
            Seq::empty()
        }
    }
}

/// One slot of the table.
struct WindowSlot<V, C> {
    state: Option<V>,
    next_frame: Vec<C>,
}

/// The open windows. What a window holds is not this runtime's business: it
/// keeps the state for the layer that draws, and hands it out on request.
pub struct WindowMap<V, C> {
    slots: HashMap<u64, WindowSlot<V, C>>,
    next_id: u64,
}

impl<V, C> View for WindowMap<V, C> {
    type V = Windows<V, C>;

    closed spec fn view(&self) -> Windows<V, C> {
        Windows {
            slots: Map::new(
                |k: u64| self.slots@.contains_key(k),
                |k: u64|
                    Window { state: self.slots@[k].state, next_frame: self.slots@[k].next_frame@ },
            ),
            next_id: self.next_id,
        }
    }
}

impl<V, C> WindowMap<V, C> {
    pub fn new() -> (table: Self)
        ensures
            table@ == Windows::<V, C>::empty(),
    {
        let table = WindowMap { slots: HashMap::new(), next_id: 0 };
        assert(table@.slots =~= Map::empty());
        table
    }

    /// Whether another window can be opened.
    pub fn can_open(&self) -> (yes: bool)
        ensures
            yes == (self@.next_id < u64::MAX),
    {
        self.next_id < u64::MAX
    }

    /// Opens a window with its first state.
    pub fn open(&mut self, state: V) -> (id: WindowId)
        requires
            old(self)@.next_id < u64::MAX,
        ensures
            id == WindowId(old(self)@.next_id),
            final(self)@ == old(self)@.opened(state),
    {
        let id = self.next_id;
        self.slots.insert(id, WindowSlot { state: Some(state), next_frame: Vec::new() });
        self.next_id = id + 1;
        assert(self@.slots =~= old(self)@.opened(state).slots);
        WindowId(id)
    }

    /// Whether the window is open.
    pub fn is_open(&self, id: WindowId) -> (open: bool)
        ensures
            open == self@.is_open(id),
    {
        self.slots.contains_key(&id.0)
    }

    /// The stored state of a window.
    pub fn read(&self, id: WindowId) -> (r: Result<&V, BridgeError>)
        ensures
            match r {
                Ok(window) => {
                    &&& self@.lease_refusal(id) is None
                    &&& *window == self@.value(id)
                },
                Err(e) => self@.lease_refusal(id) == Some(e),
            },
    {
        match self.slots.get(&id.0) {
            None => Err(BridgeError::WindowNotFound),
            Some(slot) => match &slot.state {
                None => Err(BridgeError::Violation(Violation::Absent)),
                Some(window) => Ok(window),
            },
        }
    }

    /// Closes a window and returns its state, or nothing when the state is
    /// out of the table. Callbacks that waited for its next frame are
    /// dropped.
    pub fn close(&mut self, id: WindowId) -> (r: Result<Option<V>, BridgeError>)
        ensures
            match r {
                Ok(state) => {
                    &&& old(self)@.is_open(id)
                    &&& state == old(self)@.slots[id.0].state
                    &&& final(self)@ == old(self)@.closed(id)
                },
                Err(e) => {
                    &&& !old(self)@.is_open(id)
                    &&& e == BridgeError::WindowNotFound
                    &&& final(self)@ == old(self)@
                },
            },
    {
        match self.slots.remove(&id.0) {
            None => {
                assert(self@.slots =~= old(self)@.slots);
                Err(BridgeError::WindowNotFound)
            },
            Some(slot) => {
                assert(self@.slots =~= old(self)@.closed(id).slots);
                Ok(slot.state)
            },
        }
    }

    /// Takes the state of a window out of the table for the time of a read
    /// or an update.
    pub fn lease(&mut self, id: WindowId) -> (r: Result<WindowLease<V>, BridgeError>)
        ensures
            match r {
                Ok(lease) => {
                    &&& old(self)@.lease_refusal(id) is None
                    &&& final(self)@ == old(self)@.with_state(id, None)
                    &&& lease.value() == old(self)@.value(id)
                    &&& lease.id() == id
                },
                Err(e) => {
                    &&& old(self)@.lease_refusal(id) == Some(e)
                    &&& final(self)@ == old(self)@
                },
            },
    {
        match self.slots.remove(&id.0) {
            None => {
                assert(self@.slots =~= old(self)@.slots);
                Err(BridgeError::WindowNotFound)
            },
            Some(slot) => match slot.state {
                None => {
                    self.slots.insert(
                        id.0,
                        WindowSlot { state: None, next_frame: slot.next_frame },
                    );
                    assert(self@.slots =~= old(self)@.slots);
                    Err(BridgeError::Violation(Violation::Absent))
                },
                Some(window) => {
                    self.slots.insert(
                        id.0,
                        WindowSlot { state: None, next_frame: slot.next_frame },
                    );
                    assert(self@.slots =~= old(self)@.with_state(id, None).slots);
                    Ok(WindowLease { window, id })
                },
            },
        }
    }

    /// Puts the state of a window back. A window that was closed in the
    /// meantime is reported as not found, and the state is dropped.
    pub fn end_lease(&mut self, lease: WindowLease<V>) -> (r: Result<(), BridgeError>)
        ensures
            match r {
                Ok(_) => {
                    &&& old(self)@.restore_refusal(lease.id()) is None
                    &&& final(self)@ == old(self)@.with_state(lease.id(), Some(lease.value()))
                },
                Err(e) => {
                    &&& old(self)@.restore_refusal(lease.id()) == Some(e)
                    &&& final(self)@ == old(self)@
                },
            },
    {
        let key = lease.id.0;
        match self.slots.remove(&key) {
            None => {
                assert(self@.slots =~= old(self)@.slots);
                Err(BridgeError::WindowNotFound)
            },
            Some(slot) => match slot.state {
                None => {
                    self.slots.insert(
                        key,
                        WindowSlot { state: Some(lease.window), next_frame: slot.next_frame },
                    );
                    assert(self@.slots =~= old(self)@.with_state(
                        lease.id(),
                        Some(lease.value()),
                    ).slots);
                    Ok(())
                },
                Some(window) => {
                    self.slots.insert(
                        key,
                        WindowSlot { state: Some(window), next_frame: slot.next_frame },
                    );
                    assert(self@.slots =~= old(self)@.slots);
                    Err(BridgeError::Violation(Violation::NotLeased))
                },
            },
        }
    }

    /// Lines up a callback for the next frame of a window, behind those that
    /// wait already. Returns whether it is the first to wait, in which case
    /// the frames of the window's display have to be asked for.
    pub fn on_next_frame(&mut self, id: WindowId, callback: C) -> (r: Result<bool, BridgeError>)
        ensures
            match r {
                Ok(first) => {
                    &&& old(self)@.is_open(id)
                    &&& first == (old(self)@.waiting(id).len() == 0)
                    &&& final(self)@ == old(self)@.with_next_frame(
                        id,
                        old(self)@.waiting(id).push(callback),
                    )
                },
                Err(e) => {
                    &&& !old(self)@.is_open(id)
                    &&& e == BridgeError::WindowNotFound
                    &&& final(self)@ == old(self)@
                },
            },
    {
        match self.slots.remove(&id.0) {
            None => {
                assert(self@.slots =~= old(self)@.slots);
                Err(BridgeError::WindowNotFound)
            },
            Some(slot) => {
                let mut next_frame = slot.next_frame;
                let first = next_frame.len() == 0;
                next_frame.push(callback);
                self.slots.insert(id.0, WindowSlot { state: slot.state, next_frame });
                assert(self@.slots =~= old(self)@.with_next_frame(
                    id,
                    old(self)@.waiting(id).push(callback),
                ).slots);
                Ok(first)
            },
        }
    }

    /// Takes the callbacks that wait for the next frame of a window, oldest
    /// first, leaving none behind.
    pub fn take_frame_callbacks(&mut self, id: WindowId) -> (callbacks: Vec<C>)
        ensures
            callbacks@ == old(self)@.waiting(id),
            final(self)@ == if old(self)@.is_open(id) {
                old(self)@.with_next_frame(id, Seq::empty())
            } else {
                old(self)@
            },
    {
        match self.slots.remove(&id.0) {
            None => {
                assert(self@.slots =~= old(self)@.slots);
                Vec::new()
            },
            Some(slot) => {
                self.slots.insert(id.0, WindowSlot { state: slot.state, next_frame: Vec::new() });
                assert(self@.slots =~= old(self)@.with_next_frame(id, Seq::empty()).slots);
                slot.next_frame
            },
        }
    }
}

} // verus!
