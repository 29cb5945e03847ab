//! The executable server: sessions, directory and admission control behind one
//! event handler.
use crate::chat::admission::AdmissionController;
use crate::chat::directory::Directory;
use crate::chat::messages::{
    error_msg, names_view, unknown_user_msg, ClientToServerMsg, ServerToClientMsg,
};
use crate::chat::model::{
    actions_view, close_all, delivery_actions, index_of, initial, is_live,
    lemma_index_of, lemma_step_wf, reject, reply, step, step_connect, step_disconnect,
    step_message, step_shutdown, step_timer, touch_ids, touch_joined, without_session, Action,
    ActionView, Event, EventView, ServerView,
};
use crate::chat::router::{broadcast, deliveries_view, send_dm, DmError};
use crate::chat::session::{deadline_of, Session, SessionState, TimeoutKind};
use vstd::prelude::*;

verus! {

/// The usual time that a connection may take to send its `Join`, in milliseconds.
pub const JOIN_TIMEOUT: u64 = 2000;

/// The usual time that a joined session may stay without traffic, in milliseconds.
pub const IDLE_TIMEOUT: u64 = 3000;

/// What a server is started with.
#[derive(Debug, Clone, Copy)]
pub struct ServerConfig {
    /// Largest number of sessions that may be live at once.
    pub max_clients: usize,
    /// How long a connection may take to send its `Join`.
    pub join_timeout: u64,
    /// How long a joined session may stay without traffic; `None` for ever.
    pub idle_timeout: Option<u64>,
}

impl ServerConfig {
    /// The usual configuration for `max_clients` clients: the usual join
    /// timeout, and no idle timeout.
    pub fn new(max_clients: usize) -> (config: ServerConfig)
        ensures
            config.max_clients == max_clients,
            config.join_timeout == JOIN_TIMEOUT,
            config.idle_timeout is None,
    {
        ServerConfig { max_clients, join_timeout: JOIN_TIMEOUT, idle_timeout: None }
    }

    /// The same configuration with the usual idle timeout.
    pub fn with_idle_timeout(self) -> (config: ServerConfig)
        ensures
            config.max_clients == self.max_clients,
            config.join_timeout == self.join_timeout,
            config.idle_timeout == Some(IDLE_TIMEOUT),
    {
        ServerConfig {
            max_clients: self.max_clients,
            join_timeout: self.join_timeout,
            idle_timeout: Some(IDLE_TIMEOUT),
        }
    }
}

/// The chat server's state.
pub struct Server {
    config: ServerConfig,
    sessions: Vec<Session>,
    directory: Directory,
    admission: AdmissionController,
    stopped: bool,
}

impl View for Server {
    type V = ServerView;

    closed spec fn view(&self) -> ServerView {
        ServerView {
            max_clients: self.config.max_clients as nat,
            join_timeout: self.config.join_timeout,
            idle_timeout: self.config.idle_timeout,
            sessions: Seq::new(self.sessions@.len(), |i: int| self.sessions@[i]@),
            directory: self.directory@,
            stopped: self.stopped,
        }
    }
}

/// One message for the connection `id`.
fn send_one(id: u64, msg: ServerToClientMsg) -> (out: Vec<Action>)
    ensures
        actions_view(out@) == reply(id, msg@),
{
    let mut out: Vec<Action> = Vec::new();
    out.push(Action::Send { to: id, msg });
    assert(actions_view(out@) =~= reply(id, msg@));
    out
}

/// An `Error` for the connection `id`, which is then closed.
fn send_and_close(id: u64, reason: &str) -> (out: Vec<Action>)
    ensures
        actions_view(out@) == reject(id, reason@),
{
    let mut out: Vec<Action> = Vec::new();
    out.push(Action::Send { to: id, msg: error_msg(reason) });
    out.push(Action::Close { id });
    assert(actions_view(out@) =~= reject(id, reason@));
    out
}

/// No action at all.
fn nothing() -> (out: Vec<Action>)
    ensures
        actions_view(out@) == Seq::<ActionView>::empty(),
{
    let out: Vec<Action> = Vec::new();
    assert(actions_view(out@) =~= Seq::<ActionView>::empty());
    out
}

impl Server {
    /// The admission count agrees with the sessions that are held.
    pub closed spec fn accounted(&self) -> bool {
        &&& self.admission.wf()
        &&& self.admission.max() == self.config.max_clients
        &&& self.admission.count() == self.sessions@.len()
    }

    /// The server's invariant.
    pub open spec fn wf(&self) -> bool {
        self@.wf() && self.accounted()
    }

    /// A server without sessions.
    pub fn new(config: ServerConfig) -> (server: Server)
        ensures
            server.wf(),
            server@ == initial(config.max_clients as nat, config.join_timeout, config.idle_timeout),
    {
        let server = Server {
            config,
            sessions: Vec::new(),
            directory: Directory::new(),
            admission: AdmissionController::new(config.max_clients),
            stopped: false,
        };
        assert(server@.sessions =~= Seq::empty());
        server
    }

    /// Number of live sessions.
    pub fn live_sessions(&self) -> (n: usize)
        ensures
            n == self@.sessions.len(),
    {
        self.sessions.len()
    }

    /// Whether shutdown was initiated.
    pub fn is_stopped(&self) -> (b: bool)
        ensures
            b == self@.stopped,
    {
        self.stopped
    }

    /// The names that are online, oldest registration first.
    pub fn users(&self) -> (names: Vec<String>)
        ensures
            names_view(names@) == crate::chat::directory::dir_names(self@.directory),
    {
        self.directory.list()
    }

    /// Position of the session with the handle `id`.
    fn find(&self, id: u64) -> (pos: Option<usize>)
        ensures
            match pos {
                Some(i) => i < self@.sessions.len() && self@.sessions[i as int].id == id,
                None => !is_live(self@.sessions, id),
            },
    {
        let mut i: usize = 0;
        while i < self.sessions.len()
            invariant
                i <= self.sessions.len(),
                forall|k: int| 0 <= k < i ==> (#[trigger] self@.sessions[k]).id != id,
            decreases self.sessions.len() - i,
        {
            if self.sessions[i].id() == id {
                return Some(i);
            }
            i = i + 1;
        }
        None
    }

    /// The state of the connection `id`; `Closed` when no session is live under
    /// that handle.
    pub fn state_of(&self, id: u64) -> (state: SessionState)
        requires
            self.wf(),
        ensures
            state == if is_live(self@.sessions, id) {
                self@.sessions[index_of(self@.sessions, id)].state
            } else {
                SessionState::Closed
            },
    {
        match self.find(id) {
            Some(i) => {
                proof {
                    lemma_index_of(self@.sessions, i as int);
                }
                self.sessions[i].state()
            },
            None => SessionState::Closed,
        }
    }

    /// When the timer of the connection `id` should fire; `None` when the
    /// connection has no session or no timeout is pending for it.
    pub fn deadline(&self, id: u64) -> (res: Option<u64>)
        requires
            self.wf(),
        ensures
            res == if is_live(self@.sessions, id) {
                deadline_of(
                    self@.sessions[index_of(self@.sessions, id)],
                    self@.join_timeout,
                    self@.idle_timeout,
                )
            } else {
                None
            },
    {
        match self.find(id) {
            Some(i) => {
                proof {
                    lemma_index_of(self@.sessions, i as int);
                }
                self.sessions[i].deadline(self.config.join_timeout, self.config.idle_timeout)
            },
            None => None,
        }
    }

    /// Ends the `i`-th session: frees its name first, then removes it and
    /// frees its place.
    fn drop_session(&mut self, i: usize)
        requires
            old(self).wf(),
            i < old(self)@.sessions.len(),
        ensures
            final(self)@ == without_session(old(self)@, i as int),
            final(self).accounted(),
    {
        let ghost before = self@;
        match self.sessions[i].name() {
            Some(n) => {
                self.directory.unregister(n);
            },
            None => {},
        }
        self.sessions.remove(i);
        self.admission.release();
        proof {
            assert(self@.sessions =~= before.sessions.remove(i as int));
        }
    }

    /// Records traffic at time `now` on the connections `a` and `b`.
    fn touch_pair(&mut self, a: u64, b: u64, now: u64)
        ensures
            final(self)@ == (ServerView {
                sessions: touch_ids(old(self)@.sessions, a, b, now),
                ..old(self)@
            }),
            old(self).accounted() ==> final(self).accounted(),
    {
        let ghost before = self@;
        let ghost pre = *self;
        let n = self.sessions.len();
        let mut k: usize = 0;
        while k < n
            invariant
                k <= n,
                n == self.sessions@.len(),
                n == before.sessions.len(),
                self.config == pre.config,
                self.directory == pre.directory,
                self.admission == pre.admission,
                self.stopped == pre.stopped,
                forall|m: int|
                    0 <= m < k ==> (#[trigger] self.sessions@[m])@ == touch_ids(
                        before.sessions,
                        a,
                        b,
                        now,
                    )[m],
                forall|m: int| k <= m < n ==> (#[trigger] self.sessions@[m])@ == before.sessions[m],
            decreases n - k,
        {
            let sid = self.sessions[k].id();
            if sid == a || sid == b {
                self.sessions[k].touch(now);
            }
            k = k + 1;
        }
        proof {
            assert(self@.sessions =~= touch_ids(before.sessions, a, b, now));
        }
    }

    /// Records traffic at time `now` on every joined connection.
    fn touch_all_joined(&mut self, now: u64)
        ensures
            final(self)@ == (ServerView {
                sessions: touch_joined(old(self)@.sessions, now),
                ..old(self)@
            }),
            old(self).accounted() ==> final(self).accounted(),
    {
        let ghost before = self@;
        let ghost pre = *self;
        let n = self.sessions.len();
        let mut k: usize = 0;
        while k < n
            invariant
                k <= n,
                n == self.sessions@.len(),
                n == before.sessions.len(),
                self.config == pre.config,
                self.directory == pre.directory,
                self.admission == pre.admission,
                self.stopped == pre.stopped,
                forall|m: int|
                    0 <= m < k ==> (#[trigger] self.sessions@[m])@ == touch_joined(
                        before.sessions,
                        now,
                    )[m],
                forall|m: int| k <= m < n ==> (#[trigger] self.sessions@[m])@ == before.sessions[m],
            decreases n - k,
        {
            match self.sessions[k].state() {
                SessionState::Joined => {
                    self.sessions[k].touch(now);
                },
                _ => {},
            }
            k = k + 1;
        }
        proof {
            assert(self@.sessions =~= touch_joined(before.sessions, now));
        }
    }

    /// A connection was accepted under the handle `id` at time `now`.
    pub fn connect(&mut self, id: u64, now: u64) -> (out: Vec<Action>)
        requires
            old(self).wf(),
        ensures
            final(self).wf(),
            final(self)@ == step_connect(old(self)@, id, now).0,
            actions_view(out@) == step_connect(old(self)@, id, now).1,
    {
        let ghost before = self@;
        proof {
            lemma_step_wf(before, EventView::Connect { id }, now);
        }
        if self.stopped {
            let mut out: Vec<Action> = Vec::new();
            out.push(Action::Close { id });
            assert(actions_view(out@) =~= seq![ActionView::Close { id }]);
            return out;
        }
        match self.find(id) {
            Some(i) => {
                assert(before.sessions[i as int].id == id);
                return nothing();
            },
            None => {},
        }
        if !self.admission.try_admit() {
            return send_and_close(id, "Server is full");
        }
        self.sessions.push(Session::new(id, now));
        proof {
            assert(self@.sessions =~= before.sessions.push(crate::chat::session::fresh(id, now)));
        }
        nothing()
    }

    /// The connection `id` delivered the message `msg` at time `now`.
    pub fn message(&mut self, id: u64, msg: ClientToServerMsg, now: u64) -> (out: Vec<Action>)
        requires
            old(self).wf(),
        ensures
            final(self).wf(),
            final(self)@ == step_message(old(self)@, id, msg@, now).0,
            actions_view(out@) == step_message(old(self)@, id, msg@, now).1,
    {
        let ghost before = self@;
        proof {
            lemma_step_wf(before, EventView::Message { id, msg: msg@ }, now);
        }
        let i = match self.find(id) {
            Some(i) => i,
            None => {
                return nothing();
            },
        };
        proof {
            lemma_index_of(before.sessions, i as int);
        }
        let me: Option<String> = match self.sessions[i].name() {
            Some(n) => Some(n.clone()),
            None => None,
        };
        match me {
            None => match msg {
                ClientToServerMsg::Join { name } => {
                    match self.directory.register(name.clone(), id) {
                        Err(_) => {
                            self.drop_session(i);
                            send_and_close(id, "Username already taken")
                        },
                        Ok(()) => {
                            self.sessions[i].join(name, now);
                            proof {
                                assert(self@.sessions =~= before.sessions.update(
                                    i as int,
                                    crate::chat::session::joined(
                                        before.sessions[i as int],
                                        name@,
                                        now,
                                    ),
                                ));
                            }
                            send_one(id, ServerToClientMsg::Welcome)
                        },
                    }
                },
                _ => {
                    self.drop_session(i);
                    send_and_close(id, "Unexpected message received")
                },
            },
            Some(me) => match msg {
                ClientToServerMsg::Join { name } => {
                    self.drop_session(i);
                    send_and_close(id, "Unexpected message received")
                },
                ClientToServerMsg::Ping => {
                    self.touch_pair(id, id, now);
                    send_one(id, ServerToClientMsg::Pong)
                },
                ClientToServerMsg::ListUsers => {
                    let users = self.directory.list();
                    self.touch_pair(id, id, now);
                    send_one(id, ServerToClientMsg::UserList { users })
                },
                ClientToServerMsg::SendDM { to, message } => {
                    match send_dm(&self.directory, &me, &to, &message) {
                        Err(DmError::SelfDm) => {
                            self.touch_pair(id, id, now);
                            send_one(id, error_msg("Cannot send a DM to yourself"))
                        },
                        Err(DmError::UnknownUser) => {
                            self.touch_pair(id, id, now);
                            send_one(id, unknown_user_msg(&to))
                        },
                        Ok(d) => {
                            self.touch_pair(id, d.target, now);
                            send_one(d.target, d.message)
                        },
                    }
                },
                ClientToServerMsg::Broadcast { message } => {
                    let deliveries = broadcast(&self.directory, &me, &message);
                    self.touch_all_joined(now);
                    let mut out: Vec<Action> = Vec::new();
                    let mut k: usize = 0;
                    while k < deliveries.len()
                        invariant
                            k <= deliveries.len(),
                            out.len() == k,
                            forall|m: int|
                                0 <= m < k ==> (#[trigger] out[m])@ == (ActionView::Send {
                                    to: deliveries[m].target,
                                    msg: deliveries[m].message@,
                                }),
                        decreases deliveries.len() - k,
                    {
                        out.push(
                            Action::Send {
                                to: deliveries[k].target,
                                msg: deliveries[k].message.clone(),
                            },
                        );
                        k = k + 1;
                    }
                    proof {
                        assert(actions_view(out@) =~= delivery_actions(deliveries_view(deliveries@)));
                    }
                    out
                },
            },
        }
    }

    /// The connection `id` is gone: closed by its peer, or failed.
    pub fn disconnect(&mut self, id: u64) -> (out: Vec<Action>)
        requires
            old(self).wf(),
        ensures
            final(self).wf(),
            final(self)@ == step_disconnect(old(self)@, id).0,
            actions_view(out@) == step_disconnect(old(self)@, id).1,
    {
        let ghost before = self@;
        proof {
            lemma_step_wf(before, EventView::Disconnect { id }, 0);
        }
        match self.find(id) {
            Some(i) => {
                proof {
                    lemma_index_of(before.sessions, i as int);
                }
                self.drop_session(i);
            },
            None => {},
        }
        nothing()
    }

    /// The timer of the connection `id` fired at time `now`.
    pub fn timer(&mut self, id: u64, now: u64) -> (out: Vec<Action>)
        requires
            old(self).wf(),
        ensures
            final(self).wf(),
            final(self)@ == step_timer(old(self)@, id, now).0,
            actions_view(out@) == step_timer(old(self)@, id, now).1,
    {
        let ghost before = self@;
        proof {
            lemma_step_wf(before, EventView::Timer { id }, now);
        }
        let i = match self.find(id) {
            Some(i) => i,
            None => {
                return nothing();
            },
        };
        proof {
            lemma_index_of(before.sessions, i as int);
        }
        match self.sessions[i].timed_out(now, self.config.join_timeout, self.config.idle_timeout) {
            None => nothing(),
            Some(TimeoutKind::Join) => {
                self.drop_session(i);
                send_and_close(id, "Timed out waiting for Join")
            },
            Some(TimeoutKind::Idle) => {
                self.drop_session(i);
                send_and_close(id, "Timeouted")
            },
        }
    }

    /// Shuts the server down: no connection is accepted from now on and every
    /// live session is closed. A second call finds nothing left to do.
    pub fn initiate_shutdown(&mut self) -> (out: Vec<Action>)
        requires
            old(self).wf(),
        ensures
            final(self).wf(),
            final(self)@ == step_shutdown(old(self)@).0,
            actions_view(out@) == step_shutdown(old(self)@).1,
    {
        let ghost before = self@;
        let mut out: Vec<Action> = Vec::new();
        let mut k: usize = 0;
        while k < self.sessions.len()
            invariant
                k <= self.sessions.len(),
                out.len() == k,
                self@ == before,
                forall|m: int|
                    0 <= m < k ==> (#[trigger] out[m])@ == (ActionView::Close {
                        id: before.sessions[m].id,
                    }),
            decreases self.sessions.len() - k,
        {
            out.push(Action::Close { id: self.sessions[k].id() });
            k = k + 1;
        }
        proof {
            assert(actions_view(out@) =~= close_all(before.sessions));
        }
        self.sessions.clear();
        self.directory.clear();
        self.admission.reset();
        self.stopped = true;
        proof {
            assert(self@.sessions =~= Seq::empty());
        }
        out
    }

    /// Handles one event at time `now` and says what is to be done.
    pub fn handle(&mut self, event: Event, now: u64) -> (out: Vec<Action>)
        requires
            old(self).wf(),
        ensures
            final(self).wf(),
            final(self)@ == step(old(self)@, event@, now).0,
            actions_view(out@) == step(old(self)@, event@, now).1,
    {
        match event {
            Event::Connect { id } => self.connect(id, now),
            Event::Message { id, msg } => self.message(id, msg, now),
            Event::Disconnect { id } => self.disconnect(id),
            Event::Timer { id } => self.timer(id, now),
            Event::Shutdown => self.initiate_shutdown(),
        }
    }
}

} // verus!
