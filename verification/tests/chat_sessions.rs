use std::cell::RefCell;
use std::collections::{HashMap, HashSet, VecDeque};
use std::rc::Rc;

use workshop::chat::messages::{ClientToServerMsg, ServerToClientMsg};
use workshop::chat::model::Action;
use workshop::chat::server::{Server, ServerConfig};

/// A server together with the connections of its clients, on a clock that
/// only moves when somebody sleeps.
struct Net {
    server: Server,
    inboxes: HashMap<u64, VecDeque<ServerToClientMsg>>,
    closed: HashSet<u64>,
    next_id: u64,
    clock: u64,
}

impl Net {
    fn perform(&mut self, actions: Vec<Action>) {
        for action in actions {
            match action {
                Action::Send { to, msg } => {
                    assert!(!self.closed.contains(&to), "message for a closed connection");
                    self.inboxes.get_mut(&to).expect("message for nobody").push_back(msg);
                }
                Action::Close { id } => {
                    self.closed.insert(id);
                }
            }
        }
    }

    /// Lets time pass, and lets every timer fire when it is due.
    fn advance(&mut self, duration_ms: u64) {
        let until = self.clock + duration_ms;
        loop {
            let due = (0..self.next_id)
                .filter_map(|id| self.server.deadline(id).map(|at| (at, id)))
                .filter(|(at, _)| *at <= until)
                .min();
            let Some((at, id)) = due else {
                break;
            };
            self.clock = self.clock.max(at);
            let actions = self.server.timer(id, self.clock);
            assert!(!actions.is_empty(), "a timer that is due must strike");
            self.perform(actions);
        }
        self.clock = until;
    }
}

#[derive(Clone)]
struct ClientSpawner {
    net: Rc<RefCell<Net>>,
}

struct Client {
    net: Rc<RefCell<Net>>,
    id: u64,
}

struct ServerOpts {
    max_clients: usize,
}

fn opts(max_clients: usize) -> ServerOpts {
    ServerOpts { max_clients }
}

fn run_test<R, F: FnOnce(ClientSpawner) -> Result<R, String>>(opts: ServerOpts, func: F) -> R {
    let config = ServerConfig::new(opts.max_clients).with_idle_timeout();
    let net = Rc::new(RefCell::new(Net {
        server: Server::new(config),
        inboxes: HashMap::new(),
        closed: HashSet::new(),
        next_id: 0,
        clock: 0,
    }));
    let ret = func(ClientSpawner { net: net.clone() }).expect("test failed");

    let mut net = net.borrow_mut();
    let live = net.server.live_sessions();
    let actions = net.server.initiate_shutdown();
    assert_eq!(actions.len(), live);
    net.perform(actions);
    assert!(net.server.is_stopped());
    assert_eq!(net.server.live_sessions(), 0);
    let refused = net.server.connect(u64::MAX, 0);
    assert_eq!(refused, vec![Action::Close { id: u64::MAX }]);
    ret
}

impl ClientSpawner {
    fn client(&self) -> Client {
        let mut net = self.net.borrow_mut();
        let id = net.next_id;
        net.next_id += 1;
        net.inboxes.insert(id, VecDeque::new());
        let now = net.clock;
        let actions = net.server.connect(id, now);
        net.perform(actions);
        Client { net: self.net.clone(), id }
    }

    fn sleep(&self, duration_ms: u64) {
        self.net.borrow_mut().advance(duration_ms);
    }
}

impl Client {
    fn join(&mut self, name: &str) {
        self.send(ClientToServerMsg::Join { name: name.to_string() });
        let msg = self.recv();
        assert!(matches!(msg, ServerToClientMsg::Welcome));
    }

    fn ping(&mut self) {
        self.send(ClientToServerMsg::Ping);
        let msg = self.recv();
        assert!(matches!(msg, ServerToClientMsg::Pong));
    }

    fn list_users(&mut self) -> Vec<String> {
        self.send(ClientToServerMsg::ListUsers);
        let msg = self.recv();
        match msg {
            ServerToClientMsg::UserList { mut users } => {
                users.sort();
                users
            }
            msg => {
                panic!("Unexpected response {msg:?}");
            }
        }
    }

    fn dm(&mut self, to: &str, message: &str) {
        self.send(ClientToServerMsg::SendDM { to: to.to_string(), message: message.to_string() });
    }

    fn expect_message(&mut self, expected_from: &str, expected_message: &str) {
        let msg = self.recv();
        match msg {
            ServerToClientMsg::Message { from, message } => {
                assert_eq!(from, expected_from);
                assert_eq!(message, expected_message);
            }
            msg => panic!("Unexpected message {msg:?}"),
        }
    }

    fn send(&mut self, msg: ClientToServerMsg) {
        self.try_send(msg).expect("cannot send message");
    }

    /// What is written to a connection that the server has closed is lost.
    fn try_send(&mut self, msg: ClientToServerMsg) -> Result<(), String> {
        let mut net = self.net.borrow_mut();
        let now = net.clock;
        let actions = net.server.message(self.id, msg, now);
        net.perform(actions);
        Ok(())
    }

    fn expect_error(&mut self, expected_error: &str) {
        let msg = self.recv();
        match msg {
            ServerToClientMsg::Error(error) => {
                assert_eq!(error, expected_error);
            }
            msg => {
                panic!("Unexpected response {msg:?}");
            }
        }
    }

    fn recv(&mut self) -> ServerToClientMsg {
        let mut net = self.net.borrow_mut();
        let closed = net.closed.contains(&self.id);
        match net.inboxes.get_mut(&self.id).and_then(|inbox| inbox.pop_front()) {
            Some(msg) => msg,
            None if closed => panic!("connection was closed"),
            None => panic!("nothing was sent to this client"),
        }
    }

    fn close(self) {
        let mut net = self.net.borrow_mut();
        let actions = net.server.disconnect(self.id);
        net.perform(actions);
        net.closed.insert(self.id);
    }

    fn check_closed(self) {
        let net = self.net.borrow();
        assert!(net.inboxes[&self.id].is_empty());
        assert!(net.closed.contains(&self.id));
    }
}

#[test]
fn empty_server_shuts_down() {
    run_test(opts(2), |_| { Ok(()) });
}

#[test]
fn lib_max_clients() {
    run_test(opts(2), |server| {
        let _client = server.client();
        let _client2 = server.client();

        let mut client3 = server.client();
        client3.expect_error("Server is full");
        client3.check_closed();

        Ok(())
    });
}

#[test]
fn max_clients_after_client_leaves() {
    run_test(opts(2), |spawner| {
        let _client = spawner.client();
        let client2 = spawner.client();
        client2.close();

        spawner.sleep(500);

        let mut client3 = spawner.client();
        client3.join("Foo");

        Ok(())
    });
}

#[test]
fn list_users_before_join() {
    run_test(opts(2), |spawner| {
        let mut client = spawner.client();
        client.send(ClientToServerMsg::ListUsers);
        client.expect_error("Unexpected message received");

        Ok(())
    });
}

#[test]
fn join_after_half_sec() {
    run_test(opts(2), |spawner| {
        let mut client = spawner.client();
        spawner.sleep(500);
        client.join("Foo");
        assert_eq!(client.list_users(), vec!["Foo".to_string()]);

        Ok(())
    });
}

#[test]
fn join_timeout() {
    run_test(opts(2), |spawner| {
        let mut client = spawner.client();
        spawner.sleep(3000);
        match client
            .try_send(ClientToServerMsg::Join {
                name: "Bilbo".to_string(),
            })
        {
            Ok(_) => {
                client.expect_error("Timed out waiting for Join");
            }
            Err(_) => {}
        }

        Ok(())
    });
}

#[test]
fn duplicated_join() {
    run_test(opts(2), |spawner| {
        let mut client = spawner.client();
        client.join("Foo");
        client
            .send(ClientToServerMsg::Join {
                name: "Bar".to_string(),
            });
        client.expect_error("Unexpected message received");

        Ok(())
    });
}

#[test]
fn error_then_disconnect() {
    run_test(opts(2), |spawner| {
        let mut client = spawner.client();
        client.join("Foo");
        client
            .send(ClientToServerMsg::Join {
                name: "Bar".to_string(),
            });
        client.close();

        let mut client2 = spawner.client();
        client2.join("Bar");

        Ok(())
    });
}

#[test]
fn duplicated_username() {
    run_test(opts(2), |spawner| {
        let mut client = spawner.client();
        client.join("Foo");

        let mut client2 = spawner.client();
        client2
            .send(ClientToServerMsg::Join {
                name: "Foo".to_string(),
            });
        client2.expect_error("Username already taken");

        Ok(())
    });
}

#[test]
fn ping() {
    run_test(opts(2), |spawner| {
        let mut luca = spawner.client();
        luca.join("Luca");
        luca.ping();

        Ok(())
    });
}

#[test]
fn ping_before_join() {
    run_test(opts(2), |spawner| {
        let mut client = spawner.client();
        client.send(ClientToServerMsg::Ping);
        client.expect_error("Unexpected message received");

        Ok(())
    });
}

#[test]
fn list_users_reconnect() {
    run_test(opts(2), |spawner| {
        let mut client = spawner.client();
        client.join("Foo");
        client.close();

        let mut client = spawner.client();
        client.join("Foo");
        assert_eq!(client.list_users(), vec!["Foo".to_string()]);

        Ok(())
    });
}

#[test]
fn list_users_self() {
    run_test(opts(2), |spawner| {
        let mut client = spawner.client();
        client.join("Martin");
        assert_eq!(client.list_users(), vec!["Martin".to_string()]);

        Ok(())
    });
}

#[test]
fn list_users_ignore_not_joined_users() {
    run_test(opts(2), |spawner| {
        let _client = spawner.client();
        let mut client2 = spawner.client();
        client2.join("Joe");
        assert_eq!(client2.list_users(), vec!["Joe".to_string()]);

        Ok(())
    });
}

#[test]
fn list_users_after_error() {
    run_test(opts(2), |spawner| {
        let mut client = spawner.client();
        client.join("Terrence");

        let mut client2 = spawner.client();
        client2.join("Joe");

        client
            .send(ClientToServerMsg::Join {
                name: "Barbara".to_string(),
            });

        spawner.sleep(1000);

        assert_eq!(client2.list_users(), vec!["Joe".to_string()]);

        Ok(())
    });
}

#[test]
fn list_users() {
    run_test(opts(2), |spawner| {
        let mut client = spawner.client();
        client.join("Terrence");

        let mut client2 = spawner.client();
        client2.join("Joe");
        assert_eq!(
            client2.list_users(),
            vec!["Joe".to_string(), "Terrence".to_string()]
        );
        client2.close();

        spawner.sleep(1000);

        assert_eq!(client.list_users(), vec!["Terrence".to_string()]);

        Ok(())
    });
}

#[test]
fn dm_nonexistent_user() {
    run_test(opts(2), |spawner| {
        let mut client = spawner.client();
        client.join("Mark");
        client.dm("Fiona", "Hi");
        client.expect_error("User Fiona does not exist");

        Ok(())
    });
}

#[test]
fn dm_self() {
    run_test(opts(2), |spawner| {
        let mut client = spawner.client();
        client.join("Xal'atath");
        client.dm("Xal'atath", "I'm so lonely :(");
        client.expect_error("Cannot send a DM to yourself");

        Ok(())
    });
}

#[test]
fn dm_other() {
    run_test(opts(2), |spawner| {
        let mut terrence = spawner.client();
        terrence.join("Terrence");

        let mut joe = spawner.client();
        joe.join("Joe");

        terrence.dm("Joe", "How you doin'");
        joe.expect_message("Terrence", "How you doin'");

        Ok(())
    });
}

#[test]
fn broadcast_empty() {
    run_test(opts(2), |spawner| {
        let mut ji = spawner.client();
        ji.join("Ji");
        ji.send(ClientToServerMsg::Broadcast {
            message: "Haaaaaai!".to_string(),
        });
        ji.ping();

        Ok(())
    });
}

#[test]
fn lib_broadcast() {
    run_test(opts(10), |spawner| {
        let mut niko = spawner.client();
        niko.join("Niko");

        let users: Vec<Client> = (0..5)
            .map(|i| {
                let mut client = spawner.client();
                client.join(&format!("NPC {i}"));
                client
            })
            .collect();

        niko.send(ClientToServerMsg::Broadcast {
            message: "Borrow this!".to_string(),
        });
        niko.ping();

        for mut user in users {
            user.expect_message("Niko", "Borrow this!");
        }

        Ok(())
    });
}

#[test]
fn message_timeout() {
    run_test(opts(2), |spawner| {
        let mut niko = spawner.client();
        niko.join("Niko");

        spawner.sleep(1000);
        niko.ping();
        spawner.sleep(1000);
        niko.list_users();
        spawner.sleep(4000);

        niko.expect_error("Timeouted");
        niko.check_closed();

        Ok(())
    });
}

#[test]
fn message_timeout_receiving_dms() {
    run_test(opts(10), |spawner| {
        let mut niko = spawner.client();
        niko.join("Niko");

        let mut kobzol = spawner.client();
        kobzol.join("Kobzol");

        spawner.sleep(1500);
        kobzol.dm("Niko", "Hi there!");
        niko.recv();
        spawner.sleep(1500);
        kobzol.dm("Niko", "So, what you're up to?");
        niko.recv();
        spawner.sleep(1500);
        kobzol.dm("Niko", "See you at RustWeek?");
        niko.recv();
        spawner.sleep(1500);
        kobzol
            .send(ClientToServerMsg::Broadcast {
                message: "Rust is really cool, you know".to_string(),
            });
        niko.recv();
        spawner.sleep(2000);
        kobzol
            .send(ClientToServerMsg::Broadcast {
                message: "...anyone here?".to_string(),
            });
        niko.recv();
        spawner.sleep(2000);

        niko.ping();

        Ok(())
    });
}

#[test]
fn max_clients_herd() {
    let max_clients = 5;
    run_test(opts(max_clients), |spawner| {
        let client_count = 50;

        let mut errors = 0;
        let mut successes = 0;
        let mut joined_clients = vec![];

        let mut clients: Vec<Client> = (0..client_count).map(|_| spawner.client()).collect();
        for (client_id, client) in clients.iter_mut().enumerate() {
            let _ = client.try_send(ClientToServerMsg::Join { name: format!("Client {client_id}") });
        }
        for mut client in clients {
            match client.recv() {
                ServerToClientMsg::Error(_) => {
                    errors += 1;
                }
                ServerToClientMsg::Welcome => {
                    successes += 1;
                    joined_clients.push(client);
                }
                msg => {
                    panic!("Unexpected message {msg:?}");
                }
            }
        }

        assert_eq!(errors, client_count - max_clients);
        assert_eq!(successes, max_clients);

        drop(joined_clients);

        Ok(())
    });
}

#[test]
fn dm_spam() {
    run_test(opts(2), |spawner| {
        let mut diana = spawner.client();
        diana.join("Diana");

        let mut francesca = spawner.client();
        francesca.join("Francesca");

        let count = 10000;

        for _ in 0..count {
            diana.dm("Francesca", "Can I borrow your brush? Pleeeeeease :(((");
            francesca.dm("Daina", "NO! Get your own!");
            match francesca.recv() {
                ServerToClientMsg::Message { from, message } => {
                    assert_eq!(from, "Diana");
                    assert_eq!(message, "Can I borrow your brush? Pleeeeeease :(((");
                }
                ServerToClientMsg::Error(error) => {
                    assert_eq!(error, "User Daina does not exist");
                }
                msg => panic!("Unexpected message {msg:?}"),
            }
        }
        let mut messages = 0;
        let mut errors = 0;
        for _ in 0..count {
            match francesca.recv() {
                ServerToClientMsg::Message { from, message } => {
                    assert_eq!(from, "Diana");
                    assert_eq!(message, "Can I borrow your brush? Pleeeeeease :(((");
                    messages += 1;
                }
                ServerToClientMsg::Error(error) => {
                    assert_eq!(error, "User Daina does not exist");
                    errors += 1;
                }
                msg => panic!("Unexpected message {msg:?}"),
            }
        }
        assert_eq!(messages + errors, count);
        francesca.ping();

        Ok(())
    });
}

#[test]
fn dm_spam_2() {
    run_test(opts(2), |spawner| {
        let mut diana = spawner.client();
        diana.join("Diana");

        let mut francesca = spawner.client();
        francesca.join("Francesca");

        let count = 10000;

        for _ in 0..count {
            francesca.send(ClientToServerMsg::Ping);
            diana.dm("Francesca", "Can I borrow your brush? Pleeeeeease :(((");
            match francesca.recv() {
                ServerToClientMsg::Message { from, message } => {
                    assert_eq!(from, "Diana");
                    assert_eq!(message, "Can I borrow your brush? Pleeeeeease :(((");
                }
                ServerToClientMsg::Pong => {}
                msg => panic!("Unexpected message {msg:?}"),
            }
        }
        for _ in 0..count {
            match francesca.recv() {
                ServerToClientMsg::Message { from, message } => {
                    assert_eq!(from, "Diana");
                    assert_eq!(message, "Can I borrow your brush? Pleeeeeease :(((");
                }
                ServerToClientMsg::Pong => {}
                msg => panic!("Unexpected message {msg:?}"),
            }
        }
        francesca.ping();

        Ok(())
    });
}

#[test]
fn drop_clients_on_shutdown() {
    let (client, client2) = run_test(opts(10), |spawner| {
        let mut client = spawner.client();
        client.join("Bar");
        let mut client2 = spawner.client();
        client2.join("Foo");
        Ok((client, client2))
    });

    client.check_closed();
    client2.check_closed();
}
