//! EventRouter: classifies each protocol-engine outcome and applies the
//! corresponding action to the connection registry.
//!
//! The engine consumes one admitted datagram per call and produces at most
//! one outcome. The router decides admit-or-refuse for a new connection
//! attempt (admit unless shutdown is active), applies an event to the
//! connection it references (dropping events for handles no longer admitted),
//! and flags outgoing responses for the transmit sink. The engine itself,
//! and the capture loop that feeds it, live outside the library; they hand
//! the router each outcome as a plain value and perform the action the
//! returned disposition names.

use vstd::prelude::*;
use crate::registry::ConnectionRegistry;
use crate::registry::ConnectionState;
use crate::registry::valid_transition;

verus! {

/// One engine outcome, as plain values. A handshake-initiating datagram
/// yields `NewConnection`; a datagram demultiplexed to an admitted
/// connection yields `ConnectionEvent` with the handle the engine issued
/// for it, and `closes` says whether the event finishes closing the
/// connection; `Response` says the engine produced a datagram to send back.
#[derive(Clone, Copy, PartialEq, Eq, Structural, Debug)]
pub enum EngineOutcome {
    NewConnection,
    ConnectionEvent { handle: u64, closes: bool },
    Response,
}

/// What the router did with one outcome, and what the caller must do next:
/// `Admit` asks the caller to complete the admission with the engine and
/// report the issued handle back through `confirm_admitted`; `Refused`
/// rejects the attempt; `TransmitRequested` hands the response datagram to
/// the transmit sink.
#[derive(Clone, Copy, PartialEq, Eq, Structural, Debug)]
pub enum Disposition {
    Admit,
    Refused,
    Forwarded { handle: u64 },
    DroppedUnknown { handle: u64 },
    TransmitRequested,
    Absorbed,
}

/// The dispatch state: the admitted connections and the admission policy.
pub struct EventRouter {
    registry: ConnectionRegistry,
    shutdown: bool,
}

impl EventRouter {
    /// The connections currently admitted, by handle.
    pub closed spec fn connections(&self) -> Map<u64, ConnectionState> {
        self.registry@
    }

    /// Whether the shutdown policy is active: new attempts are refused.
    pub closed spec fn shutdown_active(&self) -> bool {
        self.shutdown
    }

    /// Well-formedness: unique handles, and every admitted connection is
    /// `Active` — a `Closed` connection is evicted the moment it closes,
    /// and an attempt is `Pending` only before admission, never admitted.
    pub closed spec fn wf(&self) -> bool {
        &&& self.registry.wf()
        &&& forall|h: u64| self.registry@.dom().contains(h) ==> self.registry@[h] is Active
    }

    pub fn new() -> (r: Self)
        ensures
            r.wf(),
            r.connections() == Map::<u64, ConnectionState>::empty(),
            !r.shutdown_active(),
    {
        EventRouter { registry: ConnectionRegistry::new(), shutdown: false }
    }

    /// Activate the shutdown policy: from now on new attempts are refused.
    pub fn begin_shutdown(&mut self)
        requires
            old(self).wf(),
        ensures
            final(self).wf(),
            final(self).shutdown_active(),
            final(self).connections() == old(self).connections(),
    {
        self.shutdown = true;
    }

    /// How many connections are admitted.
    pub fn connection_count(&self) -> (r: usize)
        requires
            self.wf(),
        ensures
            r == self.connections().dom().len(),
    {
        self.registry.len()
    }

    pub fn contains_handle(&self, handle: u64) -> (r: bool)
        ensures
            r == self.connections().dom().contains(handle),
    {
        self.registry.contains(handle)
    }

    /// Route one engine outcome (`None` means the datagram was absorbed
    /// with no externally visible effect).
    ///
    /// A new connection attempt is admitted unless shutdown is active;
    /// refusal creates no registry entry. An event for an admitted handle is
    /// forwarded, evicting the connection when the event closes it; an
    /// event for an unknown handle is dropped without error and without
    /// change. A response outcome asks the caller to transmit. Exactly one
    /// disposition is produced per call.
    pub fn dispatch(&mut self, outcome: Option<EngineOutcome>) -> (d: Disposition)
        requires
            old(self).wf(),
        ensures
            final(self).wf(),
            final(self).shutdown_active() == old(self).shutdown_active(),
            match outcome {
                None => d is Absorbed && final(self).connections() == old(self).connections(),
                Some(EngineOutcome::NewConnection) => {
                    &&& final(self).connections() == old(self).connections()
                    &&& d == (if old(self).shutdown_active() { Disposition::Refused } else { Disposition::Admit })
                },
                Some(EngineOutcome::ConnectionEvent { handle, closes }) => {
                    if old(self).connections().dom().contains(handle) {
                        &&& d == (Disposition::Forwarded { handle })
                        &&& closes ==> final(self).connections() == old(self).connections().remove(handle)
                            && valid_transition(old(self).connections()[handle], ConnectionState::Closed)
                        &&& !closes ==> final(self).connections() == old(self).connections()
                    } else {
                        &&& d == (Disposition::DroppedUnknown { handle })
                        &&& final(self).connections() == old(self).connections()
                    }
                },
                Some(EngineOutcome::Response) => {
                    &&& d is TransmitRequested
                    &&& final(self).connections() == old(self).connections()
                },
            },
    {
        match outcome {
            None => Disposition::Absorbed,
            Some(EngineOutcome::NewConnection) => {
                if self.shutdown {
                    Disposition::Refused
                } else {
                    Disposition::Admit
                }
            },
            Some(EngineOutcome::ConnectionEvent { handle, closes }) => {
                if self.registry.contains(handle) {
                    if closes {
                        self.registry.remove(handle);
                    }
                    Disposition::Forwarded { handle }
                } else {
                    Disposition::DroppedUnknown { handle }
                }
            },
            Some(EngineOutcome::Response) => Disposition::TransmitRequested,
        }
    }

    /// Record an admission the engine completed: the attempt is admitted as
    /// `Active` under the handle the engine issued. Duplicate-safe: a handle
    /// already admitted is left exactly as it was, so a retransmitted
    /// admission cannot create a duplicate entry or corrupt state.
    pub fn confirm_admitted(&mut self, handle: u64) -> (fresh: bool)
        requires
            old(self).wf(),
        ensures
            final(self).wf(),
            final(self).shutdown_active() == old(self).shutdown_active(),
            fresh == !old(self).connections().dom().contains(handle),
            fresh ==> final(self).connections()
                == old(self).connections().insert(handle, ConnectionState::Active),
            !fresh ==> final(self).connections() == old(self).connections(),
    {
        if self.registry.contains(handle) {
            false
        } else {
            self.registry.insert(handle, ConnectionState::Active);
            true
        }
    }
}

/// Two admissions under distinct handles leave two distinct connections
/// admitted: both handles are present afterwards and the registry grew by
/// exactly two.
pub proof fn lemma_distinct_admissions(
    m: Map<u64, ConnectionState>,
    h1: u64,
    h2: u64,
)
    requires
        h1 != h2,
        m.dom().finite(),
        !m.dom().contains(h1),
        !m.dom().contains(h2),
    ensures
        ({
            let m2 = m.insert(h1, ConnectionState::Active).insert(h2, ConnectionState::Active);
            &&& m2.dom().contains(h1)
            &&& m2.dom().contains(h2)
            &&& m2.dom().len() == m.dom().len() + 2
        }),
{
    let m1 = m.insert(h1, ConnectionState::Active);
    assert(m1.dom() =~= m.dom().insert(h1));
    vstd::set::axiom_set_insert_len(m.dom(), h1);
    let m2 = m1.insert(h2, ConnectionState::Active);
    assert(m2.dom() =~= m1.dom().insert(h2));
    vstd::set::axiom_set_insert_len(m1.dom(), h2);
}

} // verus!
