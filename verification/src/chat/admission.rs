//! Admission control: the count of live sessions and the capacity it may not exceed.
use vstd::prelude::*;

verus! {

/// Keeps the number of live sessions at or below a fixed capacity.
pub struct AdmissionController {
    max_clients: usize,
    count: usize,
}

/// What happens to an admission controller.
pub enum AdmissionEvent {
    /// A connection arrives and asks to be admitted.
    Connect,
    /// An admitted session closes.
    Disconnect,
}

/// The live count after `event`, starting from `count`, under capacity `max`.
pub open spec fn count_after(max: nat, count: nat, event: AdmissionEvent) -> nat {
    match event {
        AdmissionEvent::Connect => if count >= max {
            count
        } else {
            count + 1
        },
        AdmissionEvent::Disconnect => if count == 0 {
            0
        } else {
            (count - 1) as nat
        },
    }
}

/// The live count after a whole sequence of events.
pub open spec fn count_after_all(max: nat, count: nat, events: Seq<AdmissionEvent>) -> nat
    decreases events.len(),
{
    if events.len() == 0 {
        count
    } else {
        count_after(max, count_after_all(max, count, events.drop_last()), events.last())
    }
}

/// Whatever connections and disconnections occur, in whatever order, the live
/// count never exceeds the capacity.
pub proof fn lemma_capacity_never_exceeded(max: nat, count: nat, events: Seq<AdmissionEvent>)
    requires
        count <= max,
    ensures
        count_after_all(max, count, events) <= max,
    decreases events.len(),
{
    if events.len() > 0 {
        lemma_capacity_never_exceeded(max, count, events.drop_last());
    }
}

impl AdmissionController {
    /// The capacity.
    pub closed spec fn max(&self) -> nat {
        self.max_clients as nat
    }

    /// The number of live sessions.
    pub closed spec fn count(&self) -> nat {
        self.count as nat
    }

    /// The controller's invariant: the live count is within the capacity.
    pub open spec fn wf(&self) -> bool {
        self.count() <= self.max()
    }

    /// A controller with no live session.
    pub fn new(max_clients: usize) -> (ctl: AdmissionController)
        ensures
            ctl.max() == max_clients,
            ctl.count() == 0,
            ctl.wf(),
    {
        AdmissionController { max_clients, count: 0 }
    }

    /// The capacity.
    pub fn max_clients(&self) -> (n: usize)
        ensures
            n == self.max(),
    {
        self.max_clients
    }

    /// The number of live sessions.
    pub fn live(&self) -> (n: usize)
        ensures
            n == self.count(),
    {
        self.count
    }

    /// Whether the next connection will be turned away.
    pub fn is_full(&self) -> (full: bool)
        ensures
            full <==> self.count() >= self.max(),
    {
        self.count >= self.max_clients
    }

    /// Decides on a new connection: admits it, and counts it, unless the
    /// server is at capacity.
    pub fn try_admit(&mut self) -> (admitted: bool)
        requires
            old(self).wf(),
        ensures
            final(self).wf(),
            final(self).max() == old(self).max(),
            admitted <==> old(self).count() < old(self).max(),
            final(self).count() == count_after(
                old(self).max(),
                old(self).count(),
                AdmissionEvent::Connect,
            ),
    {
        if self.count >= self.max_clients {
            false
        } else {
            self.count = self.count + 1;
            true
        }
    }

    /// Takes a closed session out of the count.
    pub fn release(&mut self)
        requires
            old(self).wf(),
        ensures
            final(self).wf(),
            final(self).max() == old(self).max(),
            final(self).count() == count_after(
                old(self).max(),
                old(self).count(),
                AdmissionEvent::Disconnect,
            ),
    {
        if self.count > 0 {
            self.count = self.count - 1;
        }
    }

    /// Takes every session out of the count.
    pub fn reset(&mut self)
        ensures
            final(self).wf(),
            final(self).max() == old(self).max(),
            final(self).count() == 0,
    {
        self.count = 0;
    }
}

} // verus!
