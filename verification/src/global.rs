use crate::entity::TypeTag;
use crate::error::Violation;
use std::collections::HashMap;
use vstd::prelude::*;

verus! {

broadcast use vstd::std_specs::hash::group_hash_axioms;

/// A global taken out of the table for the time of a read or an update.
pub struct GlobalLease<V> {
    global: V,
    type_tag: TypeTag,
}

impl<V> GlobalLease<V> {
    /// The value as it stands now.
    pub closed spec fn value(&self) -> V {
        self.global
    }

    pub closed spec fn type_tag(&self) -> TypeTag {
        self.type_tag
    }

    pub fn global(&self) -> (global: &V)
        ensures
            *global == self.value(),
    {
        &self.global
    }

    /// The value, to be changed in place.
    pub fn global_mut(&mut self) -> (global: &mut V)
        ensures
            *global == old(self).value(),
            final(self).value() == *final(global),
            final(self).type_tag() == old(self).type_tag(),
    {
        &mut self.global
    }

    pub fn global_type(&self) -> (type_tag: TypeTag)
        ensures
            type_tag == self.type_tag(),
    {
        self.type_tag
    }
}

/// The table as a mathematical value: under each type tag the global of that
/// type, or nothing while the global is out of the table.
pub struct Globals<V> {
    pub slots: Map<u64, Option<V>>,
}

impl<V> Globals<V> {
    pub open spec fn empty() -> Self {
        Globals { slots: Map::empty() }
    }

    /// A global of this type was set.
    pub open spec fn has(self, type_tag: TypeTag) -> bool {
        self.slots.contains_key(type_tag.0)
    }

    /// The global of this type is in the table.
    pub open spec fn is_present(self, type_tag: TypeTag) -> bool {
        self.has(type_tag) && self.slots[type_tag.0] is Some
    }

    /// The global of this type is out of the table.
    pub open spec fn is_leased(self, type_tag: TypeTag) -> bool {
        self.has(type_tag) && self.slots[type_tag.0] is None
    }

    /// The stored global of this type.
    pub open spec fn value(self, type_tag: TypeTag) -> V
        recommends
            self.is_present(type_tag),
    {
        self.slots[type_tag.0]->Some_0
    }

    /// Why the global cannot be taken out, if it cannot.
    pub open spec fn lease_refusal(self, type_tag: TypeTag) -> Option<Violation> {
        if !self.has(type_tag) {
            Some(Violation::GlobalMissing)
        } else if !self.is_present(type_tag) {
            Some(Violation::GlobalAbsent)
        } else {
            None
        }
    }

    /// Why a global cannot be put back, if it cannot.
    pub open spec fn restore_refusal(self, type_tag: TypeTag) -> Option<Violation> {
        if !self.has(type_tag) {
            Some(Violation::GlobalMissing)
        } else if !self.is_leased(type_tag) {
            Some(Violation::GlobalNotLeased)
        } else {
            None
        }
    }

    /// Why a global cannot be set, if it cannot: one that is out of the table
    /// cannot be replaced.
    pub open spec fn set_refusal(self, type_tag: TypeTag) -> Option<Violation> {
        if self.is_leased(type_tag) {
            Some(Violation::GlobalAbsent)
        } else {
            None
        }
    }

    /// The table after a global is put under its tag.
    pub open spec fn stored(self, type_tag: TypeTag, global: V) -> Self {
        Globals { slots: self.slots.insert(type_tag.0, Some(global)) }
    }

    /// The table after a global is taken out.
    pub open spec fn leased(self, type_tag: TypeTag) -> Self {
        Globals { slots: self.slots.insert(type_tag.0, None) }
    }

    /// The global that a set replaces.
    pub open spec fn replaced(self, type_tag: TypeTag) -> Option<V> {
        if self.is_present(type_tag) {
            Some(self.value(type_tag))
        } else {
            None
        }
    }

    /// While a global is out of the table, a further attempt to take it out
    /// or to replace it is refused.
    pub proof fn lemma_lease_is_exclusive(self, type_tag: TypeTag)
        requires
            self.is_leased(type_tag),
        ensures
            self.lease_refusal(type_tag) == Some(Violation::GlobalAbsent),
            self.set_refusal(type_tag) == Some(Violation::GlobalAbsent),
    {
    }
}

/// The singletons of the process, one for each type.
pub struct GlobalMap<V> {
    slots: HashMap<u64, Option<V>>,
}

impl<V> View for GlobalMap<V> {
    type V = Globals<V>;

    closed spec fn view(&self) -> Globals<V> {
        Globals { slots: self.slots@ }
    }
}

impl<V> GlobalMap<V> {
    pub fn new() -> (table: Self)
        ensures
            table@ == Globals::<V>::empty(),
    {
        GlobalMap { slots: HashMap::new() }
    }

    /// Whether a global of this type was set.
    pub fn has(&self, type_tag: TypeTag) -> (yes: bool)
        ensures
            yes == self@.has(type_tag),
    {
        self.slots.contains_key(&type_tag.0)
    }

    /// Sets the global of a type: creates it on the first write and replaces
    /// it afterwards, returning the one replaced.
    pub fn set(&mut self, type_tag: TypeTag, global: V) -> (r: Result<Option<V>, Violation>)
        ensures
            match r {
                Ok(previous) => {
                    &&& old(self)@.set_refusal(type_tag) is None
                    &&& final(self)@ == old(self)@.stored(type_tag, global)
                    &&& previous == old(self)@.replaced(type_tag)
                },
                Err(e) => {
                    &&& old(self)@.set_refusal(type_tag) == Some(e)
                    &&& final(self)@ == old(self)@
                },
            },
    {
        match self.slots.remove(&type_tag.0) {
            None => {
                self.slots.insert(type_tag.0, Some(global));
                assert(self@.slots =~= old(self)@.stored(type_tag, global).slots);
                Ok(None)
            },
            Some(None) => {
                self.slots.insert(type_tag.0, None);
                assert(self@.slots =~= old(self)@.slots);
                Err(Violation::GlobalAbsent)
            },
            Some(Some(previous)) => {
                self.slots.insert(type_tag.0, Some(global));
                assert(self@.slots =~= old(self)@.stored(type_tag, global).slots);
                Ok(Some(previous))
            },
        }
    }

    /// The stored global of a type.
    pub fn get(&self, type_tag: TypeTag) -> (r: Result<&V, Violation>)
        ensures
            match r {
                Ok(global) => {
                    &&& self@.lease_refusal(type_tag) is None
                    &&& *global == self@.value(type_tag)
                },
                Err(e) => self@.lease_refusal(type_tag) == Some(e),
            },
    {
        match self.slots.get(&type_tag.0) {
            None => Err(Violation::GlobalMissing),
            Some(None) => Err(Violation::GlobalAbsent),
            Some(Some(global)) => Ok(global),
        }
    }

    /// Takes the global of a type out of the table for the time of a read or
    /// an update.
    pub fn lease(&mut self, type_tag: TypeTag) -> (r: Result<GlobalLease<V>, Violation>)
        ensures
            match r {
                Ok(lease) => {
                    &&& old(self)@.lease_refusal(type_tag) is None
                    &&& final(self)@ == old(self)@.leased(type_tag)
                    &&& lease.value() == old(self)@.value(type_tag)
                    &&& lease.type_tag() == type_tag
                },
                Err(e) => {
                    &&& old(self)@.lease_refusal(type_tag) == Some(e)
                    &&& final(self)@ == old(self)@
                },
            },
    {
        match self.slots.remove(&type_tag.0) {
            None => {
                assert(self@.slots =~= old(self)@.slots);
                Err(Violation::GlobalMissing)
            },
            Some(None) => {
                self.slots.insert(type_tag.0, None);
                assert(self@.slots =~= old(self)@.slots);
                Err(Violation::GlobalAbsent)
            },
            Some(Some(global)) => {
                self.slots.insert(type_tag.0, None);
                assert(self@.slots =~= old(self)@.leased(type_tag).slots);
                Ok(GlobalLease { global, type_tag })
            },
        }
    }

    /// Puts a global back into the table.
    pub fn end_lease(&mut self, lease: GlobalLease<V>) -> (r: Result<(), Violation>)
        ensures
            match r {
                Ok(_) => {
                    &&& old(self)@.restore_refusal(lease.type_tag()) is None
                    &&& final(self)@ == old(self)@.stored(lease.type_tag(), lease.value())
                },
                Err(e) => {
                    &&& old(self)@.restore_refusal(lease.type_tag()) == Some(e)
                    &&& final(self)@ == old(self)@
                },
            },
    {
        let key = lease.type_tag.0;
        match self.slots.remove(&key) {
            None => {
                assert(self@.slots =~= old(self)@.slots);
                Err(Violation::GlobalMissing)
            },
            Some(None) => {
                self.slots.insert(key, Some(lease.global));
                assert(self@.slots =~= old(self)@.stored(lease.type_tag(), lease.value()).slots);
                Ok(())
            },
            Some(Some(global)) => {
                self.slots.insert(key, Some(global));
                assert(self@.slots =~= old(self)@.slots);
                Err(Violation::GlobalNotLeased)
            },
        }
    }
}

} // verus!
