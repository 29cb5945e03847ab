//! Resolves direct messages and broadcasts against the directory.
use crate::chat::directory::{dir_lookup, DirView, Directory};
use crate::chat::messages::{chat_msg, ServerMsgView, ServerToClientMsg};
use vstd::prelude::*;

verus! {

/// A message on its way to one session's outbound path.
#[derive(Debug, PartialEq, Eq)]
pub struct Delivery {
    /// Handle of the receiving session.
    pub target: u64,
    /// What it receives.
    pub message: ServerToClientMsg,
}

/// Mathematical value of a [`Delivery`].
pub struct DeliveryView {
    pub target: u64,
    pub message: ServerMsgView,
}

impl View for Delivery {
    type V = DeliveryView;

    open spec fn view(&self) -> DeliveryView {
        DeliveryView { target: self.target, message: self.message@ }
    }
}

/// The views of a sequence of deliveries, element by element.
pub open spec fn deliveries_view(ds: Seq<Delivery>) -> Seq<DeliveryView> {
    Seq::new(ds.len(), |i: int| ds[i]@)
}

/// Why a direct message was not delivered.
#[derive(Debug, PartialEq, Eq, Clone, Copy, Structural)]
pub enum DmError {
    /// Sender and recipient are the same user.
    SelfDm,
    /// Nobody is registered under the recipient's name.
    UnknownUser,
}

/// The fate of a direct message with text `text` from the user `from` to the
/// user `to`. A message to oneself is refused before the directory is asked.
pub open spec fn dm_outcome(d: DirView, from: Seq<char>, to: Seq<char>, text: Seq<char>) -> Result<
    DeliveryView,
    DmError,
> {
    if to == from {
        Err(DmError::SelfDm)
    } else {
        match dir_lookup(d, to) {
            None => Err(DmError::UnknownUser),
            Some(h) => Ok(
                DeliveryView {
                    target: h,
                    message: ServerMsgView::Message { from: from, message: text },
                },
            ),
        }
    }
}

/// The deliveries that a broadcast from the user `from` causes: one to every
/// registered user but `from`, oldest registration first.
pub open spec fn broadcast_deliveries(d: DirView, from: Seq<char>, text: Seq<char>) -> Seq<
    DeliveryView,
>
    decreases d.len(),
{
    if d.len() == 0 {
        Seq::empty()
    } else {
        let rest = broadcast_deliveries(d.drop_last(), from, text);
        if d.last().0 == from {
            rest
        } else {
            rest.push(
                DeliveryView {
                    target: d.last().1,
                    message: ServerMsgView::Message { from: from, message: text },
                },
            )
        }
    }
}

/// Every delivery of a broadcast goes to a registered user other than the
/// sender and carries the sender's name and text; every such user gets one.
pub proof fn lemma_broadcast_deliveries(d: DirView, from: Seq<char>, text: Seq<char>)
    ensures
        forall|k: int|
            0 <= k < broadcast_deliveries(d, from, text).len() ==> {
                let b = #[trigger] broadcast_deliveries(d, from, text)[k];
                &&& b.message == (ServerMsgView::Message { from: from, message: text })
                &&& exists|i: int| 0 <= i < d.len() && (#[trigger] d[i]).1 == b.target && d[i].0 != from
            },
        forall|i: int|
            0 <= i < d.len() && (#[trigger] d[i]).0 != from ==> exists|k: int|
                0 <= k < broadcast_deliveries(d, from, text).len() && (#[trigger] broadcast_deliveries(
                    d,
                    from,
                    text,
                )[k]).target == d[i].1,
        broadcast_deliveries(d, from, text).len() <= d.len(),
    decreases d.len(),
{
    if d.len() > 0 {
        let p = d.drop_last();
        let rest = broadcast_deliveries(p, from, text);
        let all = broadcast_deliveries(d, from, text);
        lemma_broadcast_deliveries(p, from, text);
        assert forall|k: int| 0 <= k < all.len() implies {
            let b = #[trigger] all[k];
            &&& b.message == (ServerMsgView::Message { from: from, message: text })
            &&& exists|i: int| 0 <= i < d.len() && (#[trigger] d[i]).1 == b.target && d[i].0 != from
        } by {
            if k < rest.len() {
                let b = rest[k];
                let i = choose|i: int| 0 <= i < p.len() && (#[trigger] p[i]).1 == b.target && p[i].0 != from;
                assert(d[i].1 == b.target && d[i].0 != from);
            } else {
                assert(d[d.len() - 1].1 == all[k].target);
            }
        }
        assert forall|i: int| 0 <= i < d.len() && (#[trigger] d[i]).0 != from implies exists|k: int|
            0 <= k < all.len() && (#[trigger] all[k]).target == d[i].1 by {
            if i < p.len() {
                assert(p[i].0 != from);
                let k = choose|k: int| 0 <= k < rest.len() && (#[trigger] rest[k]).target == p[i].1;
                assert(all[k].target == d[i].1);
            } else {
                assert(all[all.len() - 1].target == d[i].1);
            }
        }
    }
}

/// Routes a direct message: refuses one to the sender's own name, then asks
/// the directory for the recipient.
pub fn send_dm(dir: &Directory, from: &String, to: &String, text: &String) -> (res: Result<
    Delivery,
    DmError,
>)
    requires
        dir.wf(),
    ensures
        match res {
            Ok(d) => dm_outcome(dir@, from@, to@, text@) == Ok::<DeliveryView, DmError>(d@),
            Err(e) => dm_outcome(dir@, from@, to@, text@) == Err::<DeliveryView, DmError>(e),
        },
{
    if *to == *from {
        return Err(DmError::SelfDm);
    }
    match dir.lookup(to) {
        None => Err(DmError::UnknownUser),
        Some(h) => Ok(Delivery { target: h, message: chat_msg(from, text) }),
    }
}

/// Routes a broadcast: one delivery for every registered user except the sender.
pub fn broadcast(dir: &Directory, from: &String, text: &String) -> (res: Vec<Delivery>)
    ensures
        deliveries_view(res@) == broadcast_deliveries(dir@, from@, text@),
{
    let mut out: Vec<Delivery> = Vec::new();
    let n = dir.len();
    let mut i: usize = 0;
    assert(dir@.take(0) =~= Seq::empty());
    assert(deliveries_view(out@) =~= Seq::empty());
    while i < n
        invariant
            i <= n,
            n == dir@.len(),
            deliveries_view(out@) == broadcast_deliveries(dir@.take(i as int), from@, text@),
        decreases n - i,
    {
        let (name, handle) = dir.entry(i);
        let ghost before = deliveries_view(out@);
        proof {
            assert(dir@.take(i + 1).drop_last() =~= dir@.take(i as int));
            assert(dir@.take(i + 1).last() == dir@[i as int]);
        }
        if !(*name == *from) {
            out.push(Delivery { target: handle, message: chat_msg(from, text) });
            assert(deliveries_view(out@) =~= before.push(
                DeliveryView {
                    target: handle,
                    message: ServerMsgView::Message { from: from@, message: text@ },
                },
            ));
        }
        i = i + 1;
    }
    assert(dir@.take(n as int) =~= dir@);
    out
}

} // verus!
