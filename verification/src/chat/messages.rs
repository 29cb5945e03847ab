//! The wire protocol's message schema and its mathematical view.
use vstd::prelude::*;
use vstd::string::StringExecFns;

verus! {

/// A message sent by a client to the server.
#[derive(Debug, PartialEq, Eq)]
pub enum ClientToServerMsg {
    /// The mandatory first message, choosing a username.
    Join { name: String },
    /// Liveness check, answered with [`ServerToClientMsg::Pong`].
    Ping,
    /// Asks for the names of the users that are online.
    ListUsers,
    /// A direct message to the user named `to`.
    SendDM { to: String, message: String },
    /// A message to every joined user except the sender.
    Broadcast { message: String },
}

/// A message sent by the server to a client.
#[derive(Debug, PartialEq, Eq)]
pub enum ServerToClientMsg {
    /// The `Join` was accepted.
    Welcome,
    /// Reply to `Ping`.
    Pong,
    /// Reply to `ListUsers`.
    UserList { users: Vec<String> },
    /// A delivered direct message or broadcast.
    Message { from: String, message: String },
    /// Something went wrong; the text says what.
    Error(String),
}

/// Mathematical value of a [`ClientToServerMsg`].
pub enum ClientMsgView {
    Join { name: Seq<char> },
    Ping,
    ListUsers,
    SendDM { to: Seq<char>, message: Seq<char> },
    Broadcast { message: Seq<char> },
}

/// Mathematical value of a [`ServerToClientMsg`].
pub enum ServerMsgView {
    Welcome,
    Pong,
    UserList { users: Seq<Seq<char>> },
    Message { from: Seq<char>, message: Seq<char> },
    Error(Seq<char>),
}

/// The views of a sequence of strings, element by element.
pub open spec fn names_view(names: Seq<String>) -> Seq<Seq<char>> {
    Seq::new(names.len(), |i: int| names[i]@)
}

impl View for ClientToServerMsg {
    type V = ClientMsgView;

    open spec fn view(&self) -> ClientMsgView {
        match self {
            ClientToServerMsg::Join { name } => ClientMsgView::Join { name: name@ },
            ClientToServerMsg::Ping => ClientMsgView::Ping,
            ClientToServerMsg::ListUsers => ClientMsgView::ListUsers,
            ClientToServerMsg::SendDM { to, message } => ClientMsgView::SendDM {
                to: to@,
                message: message@,
            },
            ClientToServerMsg::Broadcast { message } => ClientMsgView::Broadcast {
                message: message@,
            },
        }
    }
}

impl View for ServerToClientMsg {
    type V = ServerMsgView;

    open spec fn view(&self) -> ServerMsgView {
        match self {
            ServerToClientMsg::Welcome => ServerMsgView::Welcome,
            ServerToClientMsg::Pong => ServerMsgView::Pong,
            ServerToClientMsg::UserList { users } => ServerMsgView::UserList {
                users: names_view(users@),
            },
            ServerToClientMsg::Message { from, message } => ServerMsgView::Message {
                from: from@,
                message: message@,
            },
            ServerToClientMsg::Error(reason) => ServerMsgView::Error(reason@),
        }
    }
}

/// Reason sent to a connection that arrives while the server is at capacity.
pub open spec fn reason_server_full() -> Seq<char> {
    "Server is full"@
}

/// Reason sent when a message does not fit the session's state.
pub open spec fn reason_unexpected() -> Seq<char> {
    "Unexpected message received"@
}

/// Reason sent when no `Join` arrived in time.
pub open spec fn reason_join_timeout() -> Seq<char> {
    "Timed out waiting for Join"@
}

/// Reason sent when the chosen username is in use.
pub open spec fn reason_name_taken() -> Seq<char> {
    "Username already taken"@
}

/// Reason sent when a user addresses a direct message to themselves.
pub open spec fn reason_self_dm() -> Seq<char> {
    "Cannot send a DM to yourself"@
}

/// Reason sent when a joined session stayed silent for too long.
pub open spec fn reason_idle() -> Seq<char> {
    "Timeouted"@
}

/// Reason sent when the recipient of a direct message is not online.
pub open spec fn reason_unknown_user(to: Seq<char>) -> Seq<char> {
    "User "@ + to + " does not exist"@
}

/// An `Error` message with a fixed reason.
pub fn error_msg(reason: &str) -> (msg: ServerToClientMsg)
    ensures
        msg@ == ServerMsgView::Error(reason@),
{
    ServerToClientMsg::Error(String::from_str(reason))
}

/// The `Error` message for a direct message to an unknown user.
pub fn unknown_user_msg(to: &String) -> (msg: ServerToClientMsg)
    ensures
        msg@ == ServerMsgView::Error(reason_unknown_user(to@)),
{
    let text = String::from_str("User ").concat(to.as_str()).concat(" does not exist");
    ServerToClientMsg::Error(text)
}

/// The `Message` that carries `text` from the user named `from`.
pub fn chat_msg(from: &String, text: &String) -> (msg: ServerToClientMsg)
    ensures
        msg@ == (ServerMsgView::Message { from: from@, message: text@ }),
{
    ServerToClientMsg::Message { from: from.clone(), message: text.clone() }
}

impl Clone for ServerToClientMsg {
    fn clone(&self) -> (res: Self)
        ensures
            res@ == self@,
    {
        match self {
            ServerToClientMsg::Welcome => ServerToClientMsg::Welcome,
            ServerToClientMsg::Pong => ServerToClientMsg::Pong,
            ServerToClientMsg::UserList { users } => {
                let mut copy: Vec<String> = Vec::new();
                let mut i: usize = 0;
                while i < users.len()
                    invariant
                        i <= users.len(),
                        copy.len() == i,
                        forall|k: int| 0 <= k < i ==> copy[k]@ == users[k]@,
                    decreases users.len() - i,
                {
                    copy.push(users[i].clone());
                    i = i + 1;
                }
                assert(names_view(copy@) =~= names_view(users@));
                ServerToClientMsg::UserList { users: copy }
            },
            ServerToClientMsg::Message { from, message } => ServerToClientMsg::Message {
                from: from.clone(),
                message: message.clone(),
            },
            ServerToClientMsg::Error(reason) => ServerToClientMsg::Error(reason.clone()),
        }
    }
}

impl Clone for ClientToServerMsg {
    fn clone(&self) -> (res: Self)
        ensures
            res@ == self@,
    {
        match self {
            ClientToServerMsg::Join { name } => ClientToServerMsg::Join { name: name.clone() },
            ClientToServerMsg::Ping => ClientToServerMsg::Ping,
            ClientToServerMsg::ListUsers => ClientToServerMsg::ListUsers,
            ClientToServerMsg::SendDM { to, message } => ClientToServerMsg::SendDM {
                to: to.clone(),
                message: message.clone(),
            },
            ClientToServerMsg::Broadcast { message } => ClientToServerMsg::Broadcast {
                message: message.clone(),
            },
        }
    }
}

} // verus!
