//! Session manager façade: the open / write / resize / close surface over
//! the registry, with the failure taxonomy of the session operations.
//!
//! The manager owns the registry; the host performs the actual OS calls
//! (spawn, write, flush, resize) and hands their outcome back, so every
//! routing and lifecycle decision here is verified for every outcome.

use vstd::prelude::*;

use crate::errors::SessionError;
use crate::registry::SessionRegistry;

verus! {

/// The public operation surface over the table of live sessions.
pub struct SessionManager<T> {
    registry: SessionRegistry<T>,
}

impl<T> View for SessionManager<T> {
    type V = Map<Seq<char>, T>;

    closed spec fn view(&self) -> Map<Seq<char>, T> {
        self.registry@
    }
}

impl<T> SessionManager<T> {
    /// The manager's registry is consistent.
    pub closed spec fn inv(&self) -> bool {
        self.registry.inv()
    }

    /// A manager with no open sessions.
    pub fn new() -> (r: Self)
        ensures
            r.inv(),
            r@ == Map::<Seq<char>, T>::empty(),
    {
        SessionManager { registry: SessionRegistry::new() }
    }

    /// Register a freshly spawned channel under `id`.
    ///
    /// Called only after the pseudo-terminal was allocated and the child was
    /// spawned; a spawn failure never reaches the registry. A still-open
    /// session under the same identifier is silently replaced and its old
    /// channel dropped; callers that want to reject a duplicate open instead
    /// can test `contains` first.
    pub fn open(&mut self, id: String, chan: T)
        requires
            old(self).inv(),
        ensures
            final(self).inv(),
            final(self)@ == old(self)@.insert(id@, chan),
    {
        self.registry.insert(id, chan);
    }

    /// Whether a session is open under `id`.
    pub fn contains(&self, id: &String) -> (r: bool)
        requires
            self.inv(),
        ensures
            r == self@.contains_key(id@),
    {
        self.registry.contains(id)
    }

    /// Borrow the channel of a live session without taking it out of the
    /// table, for a caller that only reads through the handle.
    ///
    /// Fails with `SessionNotFound` exactly when `id` names no live session.
    pub fn channel(&self, id: &String) -> (r: Result<&T, SessionError>)
        requires
            self.inv(),
        ensures
            self@.contains_key(id@) <==> r is Ok,
            r matches Ok(c) ==> *c == self@[id@],
            r matches Err(e) ==> e == SessionError::SessionNotFound,
    {
        match self.registry.get(id) {
            Some(c) => Ok(c),
            None => Err(SessionError::SessionNotFound),
        }
    }

    /// Check out the channel of a live session for an operation against it
    /// (a write through the writer handle, a resize against the terminal),
    /// so the host can release the registry lock while the call blocks. The
    /// session is handed back through `check_in` once the operation
    /// finished, whatever its outcome.
    ///
    /// Fails with `SessionNotFound` exactly when `id` names no live session,
    /// leaving the registry unchanged.
    pub fn check_out(&mut self, id: &String) -> (r: Result<T, SessionError>)
        requires
            old(self).inv(),
        ensures
            final(self).inv(),
            old(self)@.contains_key(id@) <==> r is Ok,
            r matches Ok(c) ==> c == old(self)@[id@] && final(self)@ == old(self)@.remove(id@),
            r matches Err(e) ==> e == SessionError::SessionNotFound && *final(self) == *old(self),
    {
        match self.registry.take(id) {
            Some(c) => Ok(c),
            None => Err(SessionError::SessionNotFound),
        }
    }

    /// Hand a checked-out channel back and shape the outcome of the I/O
    /// performed with it: an OS-level failure is reported as `IoFailure`,
    /// but the session stays in the registry either way — cleanup is the
    /// caller's decision, via an explicit close.
    pub fn check_in(&mut self, id: String, chan: T, io_ok: bool) -> (r: Result<(), SessionError>)
        requires
            old(self).inv(),
        ensures
            final(self).inv(),
            final(self)@ == old(self)@.insert(id@, chan),
            r is Ok <==> io_ok,
            r matches Err(e) ==> e == SessionError::IoFailure,
    {
        self.registry.insert(id, chan);
        if io_ok {
            Ok(())
        } else {
            Err(SessionError::IoFailure)
        }
    }

    /// Close the session under `id`: remove the entry and hand its channel
    /// back so the caller can release the OS resources by dropping it.
    ///
    /// Close never fails: on an unknown or already-closed identifier it
    /// returns `None` and leaves the manager exactly as it was.
    pub fn close(&mut self, id: &String) -> (r: Option<T>)
        requires
            old(self).inv(),
        ensures
            final(self).inv(),
            final(self)@ == old(self)@.remove(id@),
            old(self)@.contains_key(id@) ==> (r matches Some(c) && c == old(self)@[id@]),
            !old(self)@.contains_key(id@) ==> r is None && *final(self) == *old(self),
    {
        self.registry.take(id)
    }
}

/// Opening a session makes the identifier live with exactly the channel
/// that was handed in, so a write or resize routed by that identifier
/// afterwards finds it and succeeds.
pub proof fn lemma_open_enables_io<T>(m: Map<Seq<char>, T>, id: Seq<char>, chan: T)
    ensures
        m.insert(id, chan).contains_key(id),
        m.insert(id, chan)[id] == chan,
{
}

/// An identifier that was never opened, or whose session was closed, is not
/// live, so a write or resize routed by it is refused with `SessionNotFound`.
pub proof fn lemma_absent_after_close<T>(m: Map<Seq<char>, T>, id: Seq<char>)
    ensures
        !Map::<Seq<char>, T>::empty().contains_key(id),
        !m.remove(id).contains_key(id),
{
}

/// Closing is idempotent: the second close of the same identifier finds the
/// same table it left behind, a no-op.
pub proof fn lemma_close_idempotent<T>(m: Map<Seq<char>, T>, id: Seq<char>)
    ensures
        m.remove(id).remove(id) == m.remove(id),
{
    assert(m.remove(id).remove(id) =~= m.remove(id));
}

} // verus!
