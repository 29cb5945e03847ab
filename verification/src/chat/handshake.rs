//! A client's way through the opening of a conversation: a greeting, an
//! authentication, then chat messages; and what a non-blocking read means
//! for the client.
use vstd::prelude::*;

verus! {

/// Seconds without traffic after which a client is given up.
pub const TIMEOUT: u64 = 30;

/// What a client sends.
#[derive(Debug, Clone, Copy, PartialEq, Eq, Structural)]
pub enum Message {
    Hello,
    Authenticate,
    ChatMessage,
}

/// How far a client has come.
#[derive(Debug, Clone, Copy, PartialEq, Eq, Structural)]
pub enum ClientState {
    /// Nothing was received yet.
    Connected,
    /// The greeting was received at the given time.
    ReceivedHello { received_hello: u64 },
    /// The client has authenticated and may chat.
    ReceivedAuthenticate,
}

/// What an attempt to read a message from a client's connection brought.
#[derive(Debug, Clone, Copy, PartialEq, Eq, Structural)]
pub enum ReadOutcome {
    /// A complete message.
    Received(Message),
    /// Nothing yet; the read would have blocked.
    WouldBlock,
    /// The read failed.
    Failed,
    /// The client has closed the connection.
    Closed,
}

/// What the server keeps about a client.
#[derive(Debug, Clone, Copy, PartialEq, Eq, Structural)]
pub struct Client {
    pub connected: bool,
    pub last_activity: u64,
    pub state: ClientState,
}

/// The message that a client in the state `state` has to send next.
pub open spec fn expected(state: ClientState) -> Message {
    match state {
        ClientState::Connected => Message::Hello,
        ClientState::ReceivedHello { received_hello } => Message::Authenticate,
        ClientState::ReceivedAuthenticate => Message::ChatMessage,
    }
}

/// The state after the expected message arrived at time `now`.
pub open spec fn advanced(state: ClientState, now: u64) -> ClientState {
    match state {
        ClientState::Connected => ClientState::ReceivedHello { received_hello: now },
        ClientState::ReceivedHello { received_hello } => ClientState::ReceivedAuthenticate,
        ClientState::ReceivedAuthenticate => ClientState::ReceivedAuthenticate,
    }
}

/// The client after the read outcome `outcome` at time `now`: a message
/// counts as activity; a failure or the end of the stream disconnects.
pub open spec fn after_read(client: Client, outcome: ReadOutcome, now: u64) -> Client {
    match outcome {
        ReadOutcome::Received(msg) => Client { last_activity: now, ..client },
        ReadOutcome::WouldBlock => client,
        ReadOutcome::Failed => Client { connected: false, ..client },
        ReadOutcome::Closed => Client { connected: false, ..client },
    }
}

/// The message that the read brought, if it brought one.
pub open spec fn message_of(outcome: ReadOutcome) -> Option<Message> {
    match outcome {
        ReadOutcome::Received(msg) => Some(msg),
        _ => None,
    }
}

/// Whether the read outcome fits the client's state: a message must be the
/// one that the state expects.
pub open spec fn fits(state: ClientState, outcome: ReadOutcome) -> bool {
    message_of(outcome) matches Some(msg) ==> msg == expected(state)
}

/// The client after `outcome` was dealt with at time `now`.
pub open spec fn after_logic(client: Client, outcome: ReadOutcome, now: u64) -> Client {
    let read = after_read(client, outcome, now);
    match message_of(outcome) {
        Some(msg) => Client { state: advanced(client.state, now), ..read },
        None => read,
    }
}

/// A client that authenticated stays authenticated whatever it sends that fits.
pub proof fn lemma_three_messages(client: Client, t1: u64, t2: u64, t3: u64)
    requires
        client.state == ClientState::Connected,
    ensures
        ({
            let a = after_logic(client, ReadOutcome::Received(Message::Hello), t1);
            let b = after_logic(a, ReadOutcome::Received(Message::Authenticate), t2);
            let c = after_logic(b, ReadOutcome::Received(Message::ChatMessage), t3);
            &&& a.state == (ClientState::ReceivedHello { received_hello: t1 })
            &&& b.state == ClientState::ReceivedAuthenticate
            &&& c.state == ClientState::ReceivedAuthenticate
            &&& c.last_activity == t3
            &&& c.connected == client.connected
        }),
{
}

impl Client {
    /// A client that has just connected, at time `now`.
    pub fn new(now: u64) -> (client: Client)
        ensures
            client == (Client {
                connected: true,
                last_activity: now,
                state: ClientState::Connected,
            }),
    {
        Client { connected: true, last_activity: now, state: ClientState::Connected }
    }

    /// Seconds that are left at time `now` until the client is given up.
    pub fn until_timeout(&self, now: u64) -> (left: u64)
        ensures
            left == if now <= self.last_activity {
                TIMEOUT as int
            } else if now - self.last_activity >= TIMEOUT {
                0
            } else {
                TIMEOUT - (now - self.last_activity)
            },
    {
        let elapsed: u64 = if now >= self.last_activity {
            now - self.last_activity
        } else {
            0
        };
        TIMEOUT.saturating_sub(elapsed)
    }
}

/// The message that a client in the state `state` has to send next.
pub fn expected_message(state: ClientState) -> (msg: Message)
    ensures
        msg == expected(state),
{
    match state {
        ClientState::Connected => Message::Hello,
        ClientState::ReceivedHello { .. } => Message::Authenticate,
        ClientState::ReceivedAuthenticate => Message::ChatMessage,
    }
}

/// Takes note of what a read brought: returns the message, if there is one.
pub fn read_message(client: &mut Client, outcome: ReadOutcome, now: u64) -> (msg: Option<Message>)
    ensures
        *final(client) == after_read(*old(client), outcome, now),
        msg == message_of(outcome),
{
    match outcome {
        ReadOutcome::Received(msg) => {
            client.last_activity = now;
            Some(msg)
        },
        ReadOutcome::WouldBlock => None,
        ReadOutcome::Failed => {
            client.connected = false;
            None
        },
        ReadOutcome::Closed => {
            client.connected = false;
            None
        },
    }
}

/// Drives the client one step: takes note of what the read brought and, on
/// a message, moves the client on. Returns the chat message that is to be
/// shown, if one arrived.
pub fn client_logic(client: &mut Client, outcome: ReadOutcome, now: u64) -> (shown: Option<Message>)
    requires
        fits(old(client).state, outcome),
    ensures
        *final(client) == after_logic(*old(client), outcome, now),
        shown == if old(client).state == ClientState::ReceivedAuthenticate {
            message_of(outcome)
        } else {
            None
        },
{
    let before = client.state;
    let msg = match read_message(client, outcome, now) {
        Some(msg) => msg,
        None => {
            return None;
        },
    };
    match before {
        ClientState::Connected => {
            client.state = ClientState::ReceivedHello { received_hello: now };
            None
        },
        ClientState::ReceivedHello { .. } => {
            client.state = ClientState::ReceivedAuthenticate;
            None
        },
        ClientState::ReceivedAuthenticate => Some(msg),
    }
}

/// Drives the client one step where the message fits; a message that does
/// not fit changes nothing and is handed back as an error.
pub fn try_client_logic(client: &mut Client, outcome: ReadOutcome, now: u64) -> (res: Result<
    Option<Message>,
    Message,
>)
    ensures
        match res {
            Ok(shown) => fits(old(client).state, outcome) && *final(client) == after_logic(
                *old(client),
                outcome,
                now,
            ) && shown == if old(client).state == ClientState::ReceivedAuthenticate {
                message_of(outcome)
            } else {
                None
            },
            Err(msg) => !fits(old(client).state, outcome) && message_of(outcome) == Some(msg)
                && *final(client) == *old(client),
        },
{
    match outcome {
        ReadOutcome::Received(msg) => {
            if msg != expected_message(client.state) {
                return Err(msg);
            }
        },
        _ => {},
    }
    Ok(client_logic(client, outcome, now))
}

} // verus!
