use vstd::prelude::*;

verus! {

/// A broken invariant of the runtime: the caller used a handle, a lease or a
/// token in a way the ownership discipline forbids. These are never produced
/// by correct use; an operation that reports one leaves the runtime unchanged.
#[derive(Clone, Copy, Debug, PartialEq, Eq, Structural)]
pub enum Violation {
    /// No slot exists under the identifier: the entity was fully released,
    /// or the identifier was never issued.
    Released,
    /// The slot exists but its value is out of the store: the entity is
    /// still being built, or an update of it is in progress.
    Absent,
    /// The type tag presented differs from the tag of the stored value.
    TypeMismatch,
    /// The slot is not waiting for its first value.
    NotReserved,
    /// No update of the slot is in progress.
    NotLeased,
    /// No global is stored under the type tag.
    GlobalMissing,
    /// The global is out of the table: a read or update of it is in progress.
    GlobalAbsent,
    /// The global is in the table, so there is nothing to restore.
    GlobalNotLeased,
    /// The event's type tag differs from the one the subscriber registered for.
    EventTypeMismatch,
    /// The count of strong handles of an entity cannot grow any further.
    TooManyHandles,
    /// The count of nested updates cannot grow any further.
    TooManyUpdates,
    /// Every entity identifier is issued.
    TooManyEntities,
    /// One flush dispatched as many effects as can be counted, and more wait.
    TooManyEffects,
}

/// An environmental failure met by the cross-thread bridge. Callers are
/// expected to handle these.
#[derive(Clone, Copy, Debug, PartialEq, Eq, Structural)]
pub enum BridgeError {
    /// The last owner of the runtime is gone.
    AppReleased,
    /// The runtime is in use: a call through the bridge is under way, on
    /// this thread or another, and holds the lock.
    Locked,
    /// The window is not open any more.
    WindowNotFound,
    /// The runtime was reached and refused the call as a violation.
    Violation(Violation),
}

impl Violation {
    /// A short description, for callers that turn a violation into a fatal error.
    pub fn message(&self) -> (text: &'static str)
        ensures
            text@ == Self::message_of(*self)@,
    {
        match self {
            Violation::Released => "entity was released",
            Violation::Absent => "entity is absent from its slot",
            Violation::TypeMismatch => "invalid entity type",
            Violation::NotReserved => "slot is not reserved",
            Violation::NotLeased => "entity is not leased",
            Violation::GlobalMissing => "no global of this type",
            Violation::GlobalAbsent => "global is absent from its slot",
            Violation::GlobalNotLeased => "global is not leased",
            Violation::EventTypeMismatch => "invalid event type",
            Violation::TooManyHandles => "too many handles to one entity",
            Violation::TooManyUpdates => "updates are nested too deeply",
            Violation::TooManyEntities => "entity identifiers are used up",
            Violation::TooManyEffects => "too many effects in one flush",
        }
    }

    /// The text that `message` returns for each violation.
    pub open spec fn message_of(v: Violation) -> &'static str {
        match v {
            Violation::Released => "entity was released",
            Violation::Absent => "entity is absent from its slot",
            Violation::TypeMismatch => "invalid entity type",
            Violation::NotReserved => "slot is not reserved",
            Violation::NotLeased => "entity is not leased",
            Violation::GlobalMissing => "no global of this type",
            Violation::GlobalAbsent => "global is absent from its slot",
            Violation::GlobalNotLeased => "global is not leased",
            Violation::EventTypeMismatch => "invalid event type",
            Violation::TooManyHandles => "too many handles to one entity",
            Violation::TooManyUpdates => "updates are nested too deeply",
            Violation::TooManyEntities => "entity identifiers are used up",
            Violation::TooManyEffects => "too many effects in one flush",
        }
    }
}

impl BridgeError {
    /// The call did not reach the runtime: it was released, or it is in use.
    pub open spec fn is_unreached(self) -> bool {
        self == BridgeError::AppReleased || self == BridgeError::Locked
    }

    /// The text under which the failure is reported.
    pub fn message(&self) -> (text: &'static str)
        ensures
            text@ == Self::message_of(*self)@,
    {
        match self {
            BridgeError::AppReleased => "app was released",
            BridgeError::Locked => "app is in use",
            BridgeError::WindowNotFound => "window not found",
            BridgeError::Violation(violation) => violation.message(),
        }
    }

    /// The text that `message` returns for each failure.
    pub open spec fn message_of(e: BridgeError) -> &'static str {
        match e {
            BridgeError::AppReleased => "app was released",
            BridgeError::Locked => "app is in use",
            BridgeError::WindowNotFound => "window not found",
            BridgeError::Violation(violation) => Violation::message_of(violation),
        }
    }
}

} // verus!
