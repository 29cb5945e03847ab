//! A chat room without names: clients are known by their addresses, and
//! everything that one of them says goes to all the others.
use vstd::prelude::*;
use vstd::string::StringExecFns;

verus! {

/// A text on its way to one client.
#[derive(Debug, PartialEq, Eq)]
pub struct Outgoing {
    /// Address of the receiving client.
    pub to: String,
    /// What it receives.
    pub content: String,
}

/// Mathematical value of an [`Outgoing`].
pub struct OutgoingView {
    pub to: Seq<char>,
    pub content: Seq<char>,
}

impl View for Outgoing {
    type V = OutgoingView;

    open spec fn view(&self) -> OutgoingView {
        OutgoingView { to: self.to@, content: self.content@ }
    }
}

/// The views of a sequence of outgoing texts, element by element.
pub open spec fn outgoing_view(out: Seq<Outgoing>) -> Seq<OutgoingView> {
    Seq::new(out.len(), |i: int| out[i]@)
}

/// What the clients receive when `source` says `message`: the source's
/// address, a colon, a space and the message.
pub open spec fn line_from(source: Seq<char>, message: Seq<char>) -> Seq<char> {
    source + ": "@ + message
}

/// What `source` is taken to say when it connects.
pub open spec fn connected_notice(source: Seq<char>) -> Seq<char> {
    "["@ + source + " connected]"@
}

/// What `source` is taken to say when it disconnects.
pub open spec fn disconnected_notice(source: Seq<char>) -> Seq<char> {
    "["@ + source + " disconnected]"@
}

/// The texts that go out when `source` says `message`: one to every
/// client but `source`, in the order in which the clients connected.
pub open spec fn broadcast_spec(clients: Seq<Seq<char>>, source: Seq<char>, message: Seq<char>) -> Seq<
    OutgoingView,
>
    decreases clients.len(),
{
    if clients.len() == 0 {
        Seq::empty()
    } else {
        let rest = broadcast_spec(clients.drop_last(), source, message);
        if clients.last() == source {
            rest
        } else {
            rest.push(OutgoingView { to: clients.last(), content: line_from(source, message) })
        }
    }
}

/// `clients` without the address `address`.
pub open spec fn without(clients: Seq<Seq<char>>, address: Seq<char>) -> Seq<Seq<char>>
    decreases clients.len(),
{
    if clients.len() == 0 {
        clients
    } else if clients.last() == address {
        without(clients.drop_last(), address)
    } else {
        without(clients.drop_last(), address).push(clients.last())
    }
}

/// Nobody receives what they said themselves.
pub proof fn lemma_source_is_skipped(clients: Seq<Seq<char>>, source: Seq<char>, message: Seq<char>)
    ensures
        forall|i: int|
            0 <= i < broadcast_spec(clients, source, message).len() ==> (#[trigger] broadcast_spec(
                clients,
                source,
                message,
            )[i]).to != source,
    decreases clients.len(),
{
    if clients.len() > 0 {
        let rest = broadcast_spec(clients.drop_last(), source, message);
        let all = broadcast_spec(clients, source, message);
        lemma_source_is_skipped(clients.drop_last(), source, message);
        assert forall|i: int| 0 <= i < all.len() implies (#[trigger] all[i]).to != source by {
            if i < rest.len() {
                assert(all[i] == rest[i]);
            }
        }
    }
}

/// After an address was taken out, it is not among the clients.
pub proof fn lemma_without(clients: Seq<Seq<char>>, address: Seq<char>)
    ensures
        !without(clients, address).contains(address),
        !clients.contains(address) ==> without(clients, address) == clients,
    decreases clients.len(),
{
    if clients.len() > 0 {
        let p = clients.drop_last();
        let w = without(p, address);
        lemma_without(p, address);
        if clients.last() != address {
            let q = w.push(clients.last());
            assert forall|i: int| 0 <= i < q.len() implies q[i] != address by {
                if i < w.len() {
                    assert(w.contains(w[i]));
                }
            }
        }
        if !clients.contains(address) {
            assert forall|i: int| 0 <= i < p.len() implies p[i] != address by {
                assert(clients[i] == p[i]);
                assert(clients.contains(clients[i]));
            }
            assert(clients.contains(clients[clients.len() - 1]));
            assert(p.push(clients.last()) =~= clients);
            assert(!p.contains(address));
        }
    }
}

/// The room: the addresses of the clients that are connected.
pub struct Chat {
    clients: Vec<String>,
}

impl View for Chat {
    type V = Seq<Seq<char>>;

    /// The addresses, in the order in which the clients connected.
    closed spec fn view(&self) -> Seq<Seq<char>> {
        Seq::new(self.clients@.len(), |i: int| self.clients@[i]@)
    }
}

impl Default for Chat {
    fn default() -> (chat: Chat)
        ensures
            chat@ == Seq::<Seq<char>>::empty(),
    {
        let chat = Chat { clients: Vec::new() };
        assert(chat@ =~= Seq::<Seq<char>>::empty());
        chat
    }
}

impl Chat {
    /// Whether a client with this address is connected.
    pub fn contains(&self, address: &String) -> (found: bool)
        ensures
            found == self@.contains(address@),
    {
        let mut i: usize = 0;
        while i < self.clients.len()
            invariant
                i <= self.clients.len(),
                forall|k: int| 0 <= k < i ==> self@[k] != address@,
            decreases self.clients.len() - i,
        {
            if self.clients[i] == *address {
                assert(self@[i as int] == address@);
                return true;
            }
            i = i + 1;
        }
        false
    }

    /// Everything that `source` says goes to all the other clients.
    pub fn broadcast(&self, source: &String, message: &String) -> (out: Vec<Outgoing>)
        ensures
            outgoing_view(out@) == broadcast_spec(self@, source@, message@),
    {
        let mut out: Vec<Outgoing> = Vec::new();
        let mut i: usize = 0;
        assert(self@.take(0) =~= Seq::<Seq<char>>::empty());
        assert(outgoing_view(out@) =~= Seq::<OutgoingView>::empty());
        while i < self.clients.len()
            invariant
                i <= self.clients.len(),
                outgoing_view(out@) == broadcast_spec(self@.take(i as int), source@, message@),
            decreases self.clients.len() - i,
        {
            let ghost before = outgoing_view(out@);
            proof {
                assert(self@.take(i + 1).drop_last() =~= self@.take(i as int));
                assert(self@.take(i + 1).last() == self@[i as int]);
            }
            if !(self.clients[i] == *source) {
                let content = source.clone().concat(": ").concat(message.as_str());
                out.push(Outgoing { to: self.clients[i].clone(), content });
                assert(outgoing_view(out@) =~= before.push(
                    OutgoingView { to: self@[i as int], content: line_from(source@, message@) },
                ));
            }
            i = i + 1;
        }
        assert(self@.take(self@.len() as int) =~= self@);
        out
    }

    /// A client connects: the others are told so, then it is among the clients.
    pub fn add_client(&mut self, address: String) -> (out: Vec<Outgoing>)
        requires
            !old(self)@.contains(address@),
        ensures
            final(self)@ == old(self)@.push(address@),
            outgoing_view(out@) == broadcast_spec(old(self)@, address@, connected_notice(address@)),
    {
        let notice = String::from_str("[").concat(address.as_str()).concat(" connected]");
        let out = self.broadcast(&address, &notice);
        let ghost before = self@;
        self.clients.push(address);
        assert(self@ =~= before.push(address@));
        out
    }

    /// A client disconnects: the others are told so, then it is no longer
    /// among the clients.
    pub fn remove_client(&mut self, address: &String) -> (out: Vec<Outgoing>)
        requires
            old(self)@.contains(address@),
        ensures
            final(self)@ == without(old(self)@, address@),
            outgoing_view(out@) == broadcast_spec(
                old(self)@,
                address@,
                disconnected_notice(address@),
            ),
    {
        let notice = String::from_str("[").concat(address.as_str()).concat(" disconnected]");
        let out = self.broadcast(address, &notice);
        let ghost before = self@;
        let mut kept: Vec<String> = Vec::new();
        let mut i: usize = 0;
        assert(before.take(0) =~= Seq::<Seq<char>>::empty());
        while i < self.clients.len()
            invariant
                i <= self.clients.len(),
                self@ == before,
                Seq::new(kept@.len(), |k: int| kept@[k]@) == without(before.take(i as int), address@),
            decreases self.clients.len() - i,
        {
            let ghost sofar = Seq::new(kept@.len(), |k: int| kept@[k]@);
            proof {
                assert(before.take(i + 1).drop_last() =~= before.take(i as int));
                assert(before.take(i + 1).last() == before[i as int]);
            }
            if !(self.clients[i] == *address) {
                kept.push(self.clients[i].clone());
                assert(Seq::new(kept@.len(), |k: int| kept@[k]@) =~= sofar.push(before[i as int]));
            }
            i = i + 1;
        }
        assert(before.take(before.len() as int) =~= before);
        self.clients = kept;
        assert(self@ =~= without(before, address@));
        out
    }
}

} // verus!
