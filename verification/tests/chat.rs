use workshop::chat::admission::AdmissionController;
use workshop::chat::directory::{Directory, NameTaken};
use workshop::chat::framing::{
    encode_frame, encode_line, parse_length, EncodeError, FrameDecoder, FrameError,
    MAX_MESSAGE_SIZE,
};
use workshop::chat::messages::{ClientToServerMsg, ServerToClientMsg};
use workshop::chat::model::{Action, Event};
use workshop::chat::router::{broadcast, send_dm, DmError};
use workshop::chat::server::{Server, ServerConfig, IDLE_TIMEOUT, JOIN_TIMEOUT};
use workshop::chat::session::{Session, SessionState, TimeoutKind};
use workshop::chat::shutdown::{ShutdownController, ShutdownPhase};
use workshop::chat::handshake::{ client_logic, expected_message, read_message, try_client_logic, Client, ClientState, Message, ReadOutcome, };
use workshop::chat::room::{Chat, Outgoing};
use workshop::chat::outbox::Outbox;
use workshop::chat::reactor::{ after_accept, server_progress, AcceptOutcome, EventLoop, ServerFutureState, ServerReaction, ServerStep, };

fn server(max_clients: usize) -> Server {
    Server::new(ServerConfig { max_clients, join_timeout: 2000, idle_timeout: Some(3000) })
}

fn join(name: &str) -> ClientToServerMsg {
    ClientToServerMsg::Join { name: name.to_string() }
}

fn dm(to: &str, message: &str) -> ClientToServerMsg {
    ClientToServerMsg::SendDM { to: to.to_string(), message: message.to_string() }
}

fn error(id: u64, reason: &str) -> Vec<Action> {
    vec![Action::Send { to: id, msg: ServerToClientMsg::Error(reason.to_string()) }]
}

fn rejected(id: u64, reason: &str) -> Vec<Action> {
    vec![
        Action::Send { to: id, msg: ServerToClientMsg::Error(reason.to_string()) },
        Action::Close { id },
    ]
}

fn message(to: u64, from: &str, text: &str) -> Action {
    Action::Send {
        to,
        msg: ServerToClientMsg::Message { from: from.to_string(), message: text.to_string() },
    }
}

fn welcome(id: u64) -> Vec<Action> {
    vec![Action::Send { to: id, msg: ServerToClientMsg::Welcome }]
}

#[test]
fn join_then_ping() {
    let mut s = server(2);
    assert_eq!(s.connect(1, 0), vec![]);
    assert_eq!(s.state_of(1), SessionState::Connecting);
    assert_eq!(s.message(1, join("Foo"), 10), welcome(1));
    assert_eq!(s.state_of(1), SessionState::Joined);
    assert_eq!(
        s.message(1, ClientToServerMsg::Ping, 20),
        vec![Action::Send { to: 1, msg: ServerToClientMsg::Pong }]
    );
}

#[test]
fn direct_message_reaches_only_its_recipient() {
    let mut s = server(5);
    s.connect(1, 0);
    s.connect(2, 0);
    assert_eq!(s.message(1, join("A"), 1), welcome(1));
    assert_eq!(s.message(2, join("B"), 2), welcome(2));
    assert_eq!(s.message(1, dm("B", "hi"), 3), vec![message(2, "A", "hi")]);
}

#[test]
fn join_timeout_closes_the_connection() {
    let mut s = server(2);
    s.connect(7, 1000);
    assert_eq!(s.deadline(7), Some(3000));
    assert_eq!(s.timer(7, 2999), vec![]);
    assert_eq!(s.state_of(7), SessionState::Connecting);
    assert_eq!(s.timer(7, 3000), rejected(7, "Timed out waiting for Join"));
    assert_eq!(s.state_of(7), SessionState::Closed);
    assert_eq!(s.live_sessions(), 0);
}

#[test]
fn third_connection_finds_the_server_full() {
    let mut s = server(2);
    assert_eq!(s.connect(1, 0), vec![]);
    assert_eq!(s.connect(2, 0), vec![]);
    assert_eq!(s.connect(3, 0), rejected(3, "Server is full"));
    assert_eq!(s.live_sessions(), 2);
    assert_eq!(s.state_of(3), SessionState::Closed);
    assert_eq!(s.message(1, join("a"), 1), welcome(1));
    assert_eq!(s.message(2, join("b"), 1), welcome(2));
    assert_eq!(s.message(3, join("c"), 1), vec![]);
}

#[test]
fn a_place_is_free_again_after_a_client_leaves() {
    let mut s = server(2);
    s.connect(1, 0);
    s.connect(2, 0);
    assert_eq!(s.disconnect(2), vec![]);
    assert_eq!(s.connect(3, 0), vec![]);
    assert_eq!(s.message(3, join("Foo"), 1), welcome(3));
    assert_eq!(s.connect(4, 0), rejected(4, "Server is full"));
}

#[test]
fn capacity_is_never_exceeded() {
    let mut s = server(3);
    let mut next: u64 = 0;
    for round in 0..50u64 {
        for _ in 0..4 {
            s.connect(next, round);
            next += 1;
            assert!(s.live_sessions() <= 3);
        }
        s.disconnect(next - 3 - (round % 2));
        assert!(s.live_sessions() <= 3);
    }
}

#[test]
fn shutdown_closes_every_client() {
    let mut s = server(5);
    s.connect(1, 0);
    s.connect(2, 0);
    s.connect(3, 0);
    s.message(2, join("two"), 1);
    assert_eq!(
        s.handle(Event::Shutdown, 5),
        vec![Action::Close { id: 1 }, Action::Close { id: 2 }, Action::Close { id: 3 }]
    );
    assert!(s.is_stopped());
    assert_eq!(s.live_sessions(), 0);
    assert_eq!(s.users(), Vec::<String>::new());
    assert_eq!(s.initiate_shutdown(), vec![]);
    assert_eq!(s.connect(9, 6), vec![Action::Close { id: 9 }]);
}

#[test]
fn shutdown_waits_for_every_unit() {
    let mut ctl = ShutdownController::new();
    assert_eq!(ctl.phase(), ShutdownPhase::Accepting);
    assert!(ctl.unit_started());
    assert!(ctl.unit_started());
    assert!(ctl.initiate_shutdown());
    assert!(!ctl.initiate_shutdown());
    assert!(!ctl.is_accepting());
    assert!(!ctl.unit_started());
    assert_eq!(ctl.phase(), ShutdownPhase::Draining);
    ctl.unit_terminated();
    assert!(!ctl.is_stopped());
    assert_eq!(ctl.running(), 1);
    ctl.unit_terminated();
    assert!(ctl.is_stopped());
    assert_eq!(ctl.phase(), ShutdownPhase::Stopped);
    ctl.unit_terminated();
    assert!(ctl.is_stopped());
}

#[test]
fn one_name_one_owner() {
    let mut s = server(10);
    for id in 0..5 {
        s.connect(id, 0);
    }
    assert_eq!(s.message(3, join("same"), 1), welcome(3));
    for id in [0, 1, 2, 4] {
        assert_eq!(s.message(id, join("same"), 2), rejected(id, "Username already taken"));
        assert_eq!(s.state_of(id), SessionState::Closed);
    }
    assert_eq!(s.users(), vec!["same".to_string()]);
    assert_eq!(s.live_sessions(), 1);
}

#[test]
fn direct_messages_keep_their_order() {
    let mut s = server(10);
    for id in 0..3 {
        s.connect(id, 0);
    }
    s.message(0, join("a"), 1);
    s.message(1, join("b"), 1);
    s.message(2, join("c"), 1);
    let mut outbox: Vec<ServerToClientMsg> = Vec::new();
    let events = vec![
        (0, dm("b", "first")),
        (2, dm("b", "unrelated")),
        (2, ClientToServerMsg::Broadcast { message: "to all".to_string() }),
        (0, dm("b", "second")),
    ];
    for (id, msg) in events {
        for action in s.message(id, msg, 5) {
            match action {
                Action::Send { to: 1, msg } => outbox.push(msg),
                _ => {}
            }
        }
    }
    let from_a: Vec<String> = outbox
        .into_iter()
        .filter_map(|m| match m {
            ServerToClientMsg::Message { from, message } if from == "a" => Some(message),
            _ => None,
        })
        .collect();
    assert_eq!(from_a, vec!["first".to_string(), "second".to_string()]);
}

#[test]
fn dm_to_oneself_is_refused() {
    let mut s = server(2);
    s.connect(1, 0);
    s.message(1, join("me"), 1);
    assert_eq!(s.message(1, dm("me", "hello"), 2), error(1, "Cannot send a DM to yourself"));
    assert_eq!(s.state_of(1), SessionState::Joined);
    let dir = Directory::new();
    let me = "ghost".to_string();
    assert_eq!(send_dm(&dir, &me, &me, &"x".to_string()), Err(DmError::SelfDm));
}

#[test]
fn dm_to_unknown_user() {
    let mut s = server(2);
    s.connect(1, 0);
    s.message(1, join("me"), 1);
    assert_eq!(s.message(1, dm("you", "hello"), 2), error(1, "User you does not exist"));
    assert_eq!(s.state_of(1), SessionState::Joined);
}

#[test]
fn broadcast_skips_the_broadcaster() {
    let mut s = server(10);
    for id in 0..4 {
        s.connect(id, 0);
    }
    s.message(0, join("a"), 1);
    s.message(1, join("b"), 1);
    s.message(2, join("c"), 1);
    let out = s.message(1, ClientToServerMsg::Broadcast { message: "hey".to_string() }, 2);
    assert_eq!(out, vec![message(0, "b", "hey"), message(2, "b", "hey")]);
    let alone = s.message(3, ClientToServerMsg::Broadcast { message: "x".to_string() }, 2);
    assert_eq!(alone, rejected(3, "Unexpected message received"));
}

#[test]
fn a_name_can_be_used_again_at_once() {
    let mut s = server(3);
    s.connect(1, 0);
    s.connect(2, 0);
    s.message(1, join("Foo"), 1);
    assert_eq!(s.users(), vec!["Foo".to_string()]);
    s.disconnect(1);
    assert_eq!(s.users(), Vec::<String>::new());
    assert_eq!(s.message(2, join("Foo"), 2), welcome(2));
    assert_eq!(s.users(), vec!["Foo".to_string()]);
}

#[test]
fn protocol_violations_close_the_session() {
    let mut s = server(3);
    s.connect(1, 0);
    assert_eq!(
        s.message(1, ClientToServerMsg::Ping, 1),
        rejected(1, "Unexpected message received")
    );
    assert_eq!(s.state_of(1), SessionState::Closed);
    s.connect(2, 0);
    s.message(2, join("x"), 1);
    assert_eq!(s.message(2, join("y"), 2), rejected(2, "Unexpected message received"));
    assert_eq!(s.users(), Vec::<String>::new());
    assert_eq!(s.live_sessions(), 0);
}

#[test]
fn list_users_in_order_of_registration() {
    let mut s = server(3);
    s.connect(1, 0);
    s.connect(2, 0);
    s.message(2, join("second"), 1);
    s.message(1, join("first"), 2);
    assert_eq!(
        s.message(1, ClientToServerMsg::ListUsers, 3),
        vec![Action::Send {
            to: 1,
            msg: ServerToClientMsg::UserList {
                users: vec!["second".to_string(), "first".to_string()]
            }
        }]
    );
}

#[test]
fn idle_timeout_counts_traffic_in_both_directions() {
    let mut s = server(3);
    s.connect(1, 0);
    s.connect(2, 0);
    s.message(1, join("a"), 0);
    s.message(2, join("b"), 0);
    assert_eq!(s.deadline(2), Some(3000));
    s.message(1, dm("b", "wake up"), 2500);
    assert_eq!(s.deadline(2), Some(5500));
    assert_eq!(s.timer(2, 3000), vec![]);
    assert_eq!(s.timer(2, 5500), rejected(2, "Timeouted"));
    assert_eq!(s.users(), vec!["a".to_string()]);
    let mut quiet = Server::new(ServerConfig { max_clients: 1, join_timeout: 10, idle_timeout: None });
    quiet.connect(1, 0);
    quiet.message(1, join("a"), 0);
    assert_eq!(quiet.deadline(1), None);
    assert_eq!(quiet.timer(1, u64::MAX), vec![]);
}

#[test]
fn session_timeouts() {
    let mut session = Session::new(4, 100);
    assert_eq!(session.id(), 4);
    assert_eq!(session.name(), None);
    assert_eq!(session.timed_out(2099, 2000, None), None);
    assert_eq!(session.timed_out(2100, 2000, None), Some(TimeoutKind::Join));
    assert_eq!(session.timed_out(50, 2000, None), None);
    session.join("n".to_string(), 200);
    assert_eq!(session.state(), SessionState::Joined);
    assert_eq!(session.name(), Some(&"n".to_string()));
    assert_eq!(session.joined_at(), 200);
    assert_eq!(session.timed_out(99999, 2000, None), None);
    assert_eq!(session.timed_out(3199, 2000, Some(3000)), None);
    assert_eq!(session.timed_out(3200, 2000, Some(3000)), Some(TimeoutKind::Idle));
    session.touch(u64::MAX - 5);
    assert_eq!(session.last_activity(), u64::MAX - 5);
    assert_eq!(session.deadline(2000, Some(3000)), Some(u64::MAX));
    session.close();
    assert_eq!(session.state(), SessionState::Closed);
    assert_eq!(session.deadline(2000, Some(3000)), None);
}

#[test]
fn directory_operations() {
    let mut dir = Directory::new();
    let a = "a".to_string();
    let b = "b".to_string();
    assert_eq!(dir.register(a.clone(), 1), Ok(()));
    assert_eq!(dir.register(b.clone(), 2), Ok(()));
    assert_eq!(dir.register(a.clone(), 3), Err(NameTaken));
    assert_eq!(dir.lookup(&a), Some(1));
    assert_eq!(dir.lookup(&"c".to_string()), None);
    assert_eq!(dir.list(), vec![a.clone(), b.clone()]);
    assert_eq!(dir.len(), 2);
    dir.unregister(&"c".to_string());
    assert_eq!(dir.len(), 2);
    dir.unregister(&a);
    assert_eq!(dir.lookup(&a), None);
    assert_eq!(dir.list(), vec![b.clone()]);
    assert_eq!(dir.register(a.clone(), 3), Ok(()));
    assert_eq!(dir.list(), vec![b.clone(), a.clone()]);
    let targets: Vec<u64> =
        broadcast(&dir, &a, &"x".to_string()).into_iter().map(|d| d.target).collect();
    assert_eq!(targets, vec![2]);
    dir.clear();
    assert_eq!(dir.len(), 0);
}

#[test]
fn admission_counts() {
    let mut ctl = AdmissionController::new(2);
    assert_eq!(ctl.max_clients(), 2);
    assert!(ctl.try_admit());
    assert!(!ctl.is_full());
    assert!(ctl.try_admit());
    assert!(ctl.is_full());
    assert!(!ctl.try_admit());
    assert_eq!(ctl.live(), 2);
    ctl.release();
    assert_eq!(ctl.live(), 1);
    ctl.release();
    ctl.release();
    assert_eq!(ctl.live(), 0);
    assert!(ctl.try_admit());
    ctl.reset();
    assert_eq!(ctl.live(), 0);
    assert!(!AdmissionController::new(0).try_admit());
}

#[test]
fn length_prefixed_frames() {
    assert_eq!(encode_frame(b"abc"), Ok(vec![3, 0, 0, 0, b'a', b'b', b'c']));
    assert_eq!(encode_frame(b""), Ok(vec![0, 0, 0, 0]));
    assert_eq!(parse_length(&[0, 1, 0, 0], MAX_MESSAGE_SIZE), Ok(256));
    assert_eq!(
        parse_length(&[1, 1, 0, 0], MAX_MESSAGE_SIZE),
        Err(FrameError::TooLarge { size: 257 })
    );
    let mut dec = FrameDecoder::new(MAX_MESSAGE_SIZE);
    assert_eq!(dec.next_frame(), Ok(None));
    dec.feed(&[2, 0]);
    assert_eq!(dec.next_frame(), Ok(None));
    dec.feed(&[0, 0, b'h']);
    assert_eq!(dec.next_frame(), Ok(None));
    assert_eq!(dec.pending(), 5);
    dec.feed(&[b'i', 1, 0, 0, 0, b'!', 9]);
    assert_eq!(dec.next_frame(), Ok(Some(b"hi".to_vec())));
    assert_eq!(dec.next_frame(), Ok(Some(b"!".to_vec())));
    assert_eq!(dec.next_frame(), Ok(None));
    assert_eq!(dec.pending(), 1);
    dec.feed(&[9, 9, 9]);
    assert_eq!(dec.next_frame(), Err(FrameError::TooLarge { size: 0x09090909 }));
    assert_eq!(dec.pending(), 4);
}

#[test]
fn line_frames() {
    assert_eq!(encode_line(b"{\"Ping\"}"), Ok(b"{\"Ping\"}\n".to_vec()));
    assert_eq!(encode_line(b"a\nb"), Err(EncodeError::ContainsNewline));
    let mut dec = FrameDecoder::new(8);
    dec.feed(b"one\ntw");
    assert_eq!(dec.next_line(), Ok(Some(b"one".to_vec())));
    assert_eq!(dec.next_line(), Ok(None));
    dec.feed(b"o\n\nrest");
    assert_eq!(dec.next_line(), Ok(Some(b"two".to_vec())));
    assert_eq!(dec.next_line(), Ok(Some(b"".to_vec())));
    assert_eq!(dec.next_line(), Ok(None));
    dec.feed(b"less");
    assert_eq!(dec.next_line(), Err(FrameError::TooLarge { size: 8 }));
    dec.feed(b"\n");
    assert_eq!(dec.next_line(), Ok(Some(b"restless".to_vec())));
}

#[test]
fn events_for_unknown_connections_are_ignored() {
    let mut s = server(1);
    assert_eq!(s.handle(Event::Message { id: 5, msg: ClientToServerMsg::Ping }, 0), vec![]);
    assert_eq!(s.handle(Event::Disconnect { id: 5 }, 0), vec![]);
    assert_eq!(s.handle(Event::Timer { id: 5 }, 0), vec![]);
    assert_eq!(s.handle(Event::Connect { id: 5 }, 0), vec![]);
    assert_eq!(s.handle(Event::Connect { id: 5 }, 0), vec![]);
    assert_eq!(s.live_sessions(), 1);
}

#[test]
fn handshake_in_three_messages() {
    let mut client = Client::new(5);
    assert_eq!(expected_message(client.state), Message::Hello);
    assert_eq!(client.until_timeout(5), 30);
    assert_eq!(client.until_timeout(15), 20);
    assert_eq!(client.until_timeout(35), 0);
    assert_eq!(client.until_timeout(99), 0);
    assert_eq!(client.until_timeout(1), 30);
    assert_eq!(client_logic(&mut client, ReadOutcome::WouldBlock, 6), None);
    assert_eq!(client, Client::new(5));
    assert_eq!(client_logic(&mut client, ReadOutcome::Received(Message::Hello), 7), None);
    assert_eq!(client.state, ClientState::ReceivedHello { received_hello: 7 });
    assert_eq!(client.last_activity, 7);
    assert_eq!(
        try_client_logic(&mut client, ReadOutcome::Received(Message::ChatMessage), 8),
        Err(Message::ChatMessage)
    );
    assert_eq!(client.last_activity, 7);
    assert_eq!(
        try_client_logic(&mut client, ReadOutcome::Received(Message::Authenticate), 9),
        Ok(None)
    );
    assert_eq!(client.state, ClientState::ReceivedAuthenticate);
    assert_eq!(
        client_logic(&mut client, ReadOutcome::Received(Message::ChatMessage), 10),
        Some(Message::ChatMessage)
    );
    assert_eq!(client.state, ClientState::ReceivedAuthenticate);
    assert!(client.connected);
    assert_eq!(read_message(&mut client, ReadOutcome::Failed, 11), None);
    assert!(!client.connected);
    assert_eq!(client.last_activity, 10);
    let mut other = Client::new(0);
    assert_eq!(client_logic(&mut other, ReadOutcome::Closed, 1), None);
    assert!(!other.connected);
}

#[test]
fn room_tells_everybody_else() {
    let a = "127.0.0.1:1000".to_string();
    let b = "127.0.0.1:2000".to_string();
    let c = "127.0.0.1:3000".to_string();
    let to = |to: &String, content: &str| Outgoing { to: to.clone(), content: content.to_string() };
    let mut chat = Chat::default();
    assert_eq!(chat.add_client(a.clone()), vec![]);
    assert_eq!(chat.add_client(b.clone()), vec![to(&a, "127.0.0.1:2000: [127.0.0.1:2000 connected]")]);
    assert_eq!(
        chat.add_client(c.clone()),
        vec![
            to(&a, "127.0.0.1:3000: [127.0.0.1:3000 connected]"),
            to(&b, "127.0.0.1:3000: [127.0.0.1:3000 connected]")
        ]
    );
    assert!(chat.contains(&b));
    assert_eq!(
        chat.broadcast(&b, &"hi".to_string()),
        vec![to(&a, "127.0.0.1:2000: hi"), to(&c, "127.0.0.1:2000: hi")]
    );
    assert_eq!(
        chat.remove_client(&a),
        vec![
            to(&b, "127.0.0.1:1000: [127.0.0.1:1000 disconnected]"),
            to(&c, "127.0.0.1:1000: [127.0.0.1:1000 disconnected]")
        ]
    );
    assert!(!chat.contains(&a));
    assert_eq!(chat.broadcast(&a, &"gone".to_string()).len(), 2);
    assert_eq!(chat.broadcast(&c, &"x".to_string()), vec![to(&b, "127.0.0.1:3000: x")]);
}

#[test]
fn outbox_is_bounded() {
    let mut outbox = Outbox::new(2);
    assert_eq!(outbox.pop(), None);
    assert_eq!(outbox.push(ServerToClientMsg::Welcome), Ok(()));
    assert!(!outbox.is_full());
    assert_eq!(outbox.push(ServerToClientMsg::Pong), Ok(()));
    assert!(outbox.is_full());
    let refused = ServerToClientMsg::Error("x".to_string());
    assert_eq!(outbox.push(refused.clone()), Err(refused));
    assert_eq!(outbox.len(), 2);
    assert_eq!(outbox.pop(), Some(ServerToClientMsg::Welcome));
    assert_eq!(outbox.pop(), Some(ServerToClientMsg::Pong));
    assert_eq!(outbox.pop(), None);
    assert_eq!(Outbox::new(0).push(ServerToClientMsg::Pong), Err(ServerToClientMsg::Pong));
}

#[test]
fn event_loop_wakes_the_tasks_that_wait() {
    assert_eq!(
        server_progress(ServerFutureState::Start),
        (ServerStep::Watch, ServerFutureState::Accepting)
    );
    assert_eq!(
        server_progress(ServerFutureState::Accepting),
        (ServerStep::Accept, ServerFutureState::Accepting)
    );
    assert_eq!(after_accept(AcceptOutcome::WouldBlock), ServerReaction::Wait);
    assert_eq!(after_accept(AcceptOutcome::Accepted), ServerReaction::Spawn);
    let mut el = EventLoop::default();
    assert_eq!(el.add(), 0);
    assert_eq!(el.add(), 1);
    assert_eq!(el.add(), 2);
    el.watch(0, 3);
    el.watch(2, 3);
    el.watch(2, 7);
    el.watch(1, 5);
    assert_eq!(el.ready(3), vec![0, 2]);
    assert_eq!(el.ready(7), vec![2]);
    assert_eq!(el.ready(9), Vec::<usize>::new());
    assert_eq!(el.len(), 3);
}

#[test]
fn usual_configuration() {
    let config = ServerConfig::new(4);
    assert_eq!((config.max_clients, config.join_timeout, config.idle_timeout), (4, 2000, None));
    assert_eq!(JOIN_TIMEOUT, 2000);
    assert_eq!(config.with_idle_timeout().idle_timeout, Some(IDLE_TIMEOUT));
    assert_eq!(IDLE_TIMEOUT, 3000);
}
