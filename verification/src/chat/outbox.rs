//! A session's outbound path: a bounded queue of messages. A message that
//! does not fit is handed back to the deliverer; nothing is dropped in silence.
use crate::chat::messages::{ServerMsgView, ServerToClientMsg};
use vstd::prelude::*;

verus! {

/// Messages that wait to be written to one client, oldest first.
pub struct Outbox {
    queue: Vec<ServerToClientMsg>,
    capacity: usize,
}

impl View for Outbox {
    type V = Seq<ServerMsgView>;

    closed spec fn view(&self) -> Seq<ServerMsgView> {
        Seq::new(self.queue@.len(), |i: int| self.queue@[i]@)
    }
}

impl Outbox {
    /// The largest number of messages that may wait.
    pub closed spec fn capacity(&self) -> nat {
        self.capacity as nat
    }

    /// The outbox's invariant: no more messages wait than may.
    pub closed spec fn wf(&self) -> bool {
        self.queue@.len() <= self.capacity
    }

    /// An empty outbox for at most `capacity` messages.
    pub fn new(capacity: usize) -> (outbox: Outbox)
        ensures
            outbox.wf(),
            outbox.capacity() == capacity,
            outbox@ == Seq::<ServerMsgView>::empty(),
    {
        let outbox = Outbox { queue: Vec::new(), capacity };
        assert(outbox@ =~= Seq::<ServerMsgView>::empty());
        outbox
    }

    /// The number of messages that wait.
    pub fn len(&self) -> (n: usize)
        ensures
            n == self@.len(),
    {
        self.queue.len()
    }

    /// Whether the next message will be refused.
    pub fn is_full(&self) -> (full: bool)
        ensures
            full == (self@.len() >= self.capacity()),
    {
        self.queue.len() >= self.capacity
    }

    /// Puts `msg` behind the messages that wait. A full outbox takes
    /// nothing in and hands the message back.
    pub fn push(&mut self, msg: ServerToClientMsg) -> (res: Result<(), ServerToClientMsg>)
        requires
            old(self).wf(),
        ensures
            final(self).wf(),
            final(self).capacity() == old(self).capacity(),
            match res {
                Ok(()) => old(self)@.len() < old(self).capacity() && final(self)@ == old(self)@.push(
                    msg@,
                ),
                Err(back) => old(self)@.len() >= old(self).capacity() && back == msg && final(self)@
                    == old(self)@,
            },
    {
        if self.queue.len() >= self.capacity {
            return Err(msg);
        }
        let ghost before = self@;
        self.queue.push(msg);
        assert(self@ =~= before.push(msg@));
        Ok(())
    }

    /// Takes the oldest message out.
    pub fn pop(&mut self) -> (res: Option<ServerToClientMsg>)
        requires
            old(self).wf(),
        ensures
            final(self).wf(),
            final(self).capacity() == old(self).capacity(),
            match res {
                Some(msg) => old(self)@.len() > 0 && msg@ == old(self)@[0] && final(self)@ == old(self)@.drop_first(),
                None => old(self)@.len() == 0 && final(self)@ == old(self)@,
            },
    {
        if self.queue.len() == 0 {
            return None;
        }
        let ghost before = self@;
        let msg = self.queue.remove(0);
        assert(self@ =~= before.drop_first());
        Some(msg)
    }
}

/// Messages leave an outbox in the order in which they entered it.
pub proof fn lemma_first_in_first_out(queue: Seq<ServerMsgView>, a: ServerMsgView, b: ServerMsgView)
    ensures
        queue.push(a).push(b).drop_first() == queue.push(a).drop_first().push(b),
        queue.len() == 0 ==> queue.push(a).push(b)[0] == a && queue.push(a).push(b).drop_first()[0]
            == b,
{
    assert(queue.push(a).push(b).drop_first() =~= queue.push(a).drop_first().push(b));
}

} // verus!
