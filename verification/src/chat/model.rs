//! The server as a mathematical state machine: its state, the events that
//! drive it, the actions it answers with, and the invariant that every step
//! preserves.
use crate::chat::directory::{
    dir_contains, dir_lookup, dir_names, dir_remove, dir_unique, lemma_lookup_contains,
    lemma_remove_effect, DirView,
};
use crate::chat::messages::{
    reason_idle, reason_join_timeout, reason_name_taken, reason_self_dm, reason_server_full,
    reason_unexpected, reason_unknown_user, ClientMsgView, ClientToServerMsg, ServerMsgView,
    ServerToClientMsg,
};
use crate::chat::router::{broadcast_deliveries, dm_outcome, DeliveryView, DmError};
use crate::chat::session::{fresh, joined, timeout_of, touched, SessionState, SessionView, TimeoutKind};
use vstd::prelude::*;

verus! {

/// What the surrounding program must do for the server.
#[derive(Debug, PartialEq, Eq)]
pub enum Action {
    /// Enqueue `msg` on the outbound path of the connection `to`.
    Send { to: u64, msg: ServerToClientMsg },
    /// Close the connection `id`, after what was enqueued for it before.
    Close { id: u64 },
}

/// Mathematical value of an [`Action`].
pub enum ActionView {
    Send { to: u64, msg: ServerMsgView },
    Close { id: u64 },
}

impl View for Action {
    type V = ActionView;

    open spec fn view(&self) -> ActionView {
        match self {
            Action::Send { to, msg } => ActionView::Send { to: *to, msg: msg@ },
            Action::Close { id } => ActionView::Close { id: *id },
        }
    }
}

/// The views of a sequence of actions, element by element.
pub open spec fn actions_view(actions: Seq<Action>) -> Seq<ActionView> {
    Seq::new(actions.len(), |i: int| actions[i]@)
}

/// What the surrounding program reports to the server.
#[derive(Debug, PartialEq, Eq)]
pub enum Event {
    /// A connection was accepted and is known by the handle `id`.
    Connect { id: u64 },
    /// The connection `id` delivered one complete message.
    Message { id: u64, msg: ClientToServerMsg },
    /// The connection `id` is gone: closed by its peer, or failed.
    Disconnect { id: u64 },
    /// The timer of the connection `id` fired.
    Timer { id: u64 },
    /// The server is asked to shut down.
    Shutdown,
}

/// Mathematical value of an [`Event`].
pub enum EventView {
    Connect { id: u64 },
    Message { id: u64, msg: ClientMsgView },
    Disconnect { id: u64 },
    Timer { id: u64 },
    Shutdown,
}

impl View for Event {
    type V = EventView;

    open spec fn view(&self) -> EventView {
        match self {
            Event::Connect { id } => EventView::Connect { id: *id },
            Event::Message { id, msg } => EventView::Message { id: *id, msg: msg@ },
            Event::Disconnect { id } => EventView::Disconnect { id: *id },
            Event::Timer { id } => EventView::Timer { id: *id },
            Event::Shutdown => EventView::Shutdown,
        }
    }
}

/// Mathematical value of the server: its configuration, the live sessions in
/// the order of their admission, the directory, and whether it was shut down.
pub struct ServerView {
    pub max_clients: nat,
    pub join_timeout: u64,
    pub idle_timeout: Option<u64>,
    pub sessions: Seq<SessionView>,
    pub directory: DirView,
    pub stopped: bool,
}

/// A session with the handle `id` is live.
pub open spec fn is_live(ss: Seq<SessionView>, id: u64) -> bool {
    exists|i: int| 0 <= i < ss.len() && (#[trigger] ss[i]).id == id
}

/// Position of the live session with the handle `id`.
pub open spec fn index_of(ss: Seq<SessionView>, id: u64) -> int {
    choose|i: int| 0 <= i < ss.len() && (#[trigger] ss[i]).id == id
}

/// No two live sessions share a handle.
pub open spec fn distinct_ids(ss: Seq<SessionView>) -> bool {
    forall|i: int, j: int| 0 <= i < j < ss.len() ==> (#[trigger] ss[i]).id != (#[trigger] ss[j]).id
}

/// Every live session is connecting or joined, and has a name exactly when joined.
pub open spec fn names_agree(ss: Seq<SessionView>) -> bool {
    forall|i: int|
        0 <= i < ss.len() ==> {
            &&& (#[trigger] ss[i]).state != SessionState::Closed
            &&& (ss[i].state == SessionState::Joined <==> ss[i].name is Some)
        }
}

/// A live session joined under the name of the entry `e` and has its handle.
pub open spec fn owned(ss: Seq<SessionView>, e: (Seq<char>, u64)) -> bool {
    exists|i: int| 0 <= i < ss.len() && (#[trigger] ss[i]).id == e.1 && ss[i].name == Some(e.0)
}

/// Every directory entry belongs to a live session that joined under that name.
pub open spec fn entries_owned(ss: Seq<SessionView>, d: DirView) -> bool {
    forall|k: int| 0 <= k < d.len() ==> owned(ss, #[trigger] d[k])
}

/// Every joined session is found in the directory under its name.
pub open spec fn joined_registered(ss: Seq<SessionView>, d: DirView) -> bool {
    forall|i: int|
        0 <= i < ss.len() && (#[trigger] ss[i]).name is Some ==> dir_lookup(d, ss[i].name->0)
            == Some(ss[i].id)
}

impl ServerView {
    /// The server's invariant.
    pub open spec fn wf(self) -> bool {
        &&& self.sessions.len() <= self.max_clients
        &&& distinct_ids(self.sessions)
        &&& names_agree(self.sessions)
        &&& dir_unique(self.directory)
        &&& entries_owned(self.sessions, self.directory)
        &&& joined_registered(self.sessions, self.directory)
        &&& (self.stopped ==> self.sessions.len() == 0)
    }
}

/// A server that has just started.
pub open spec fn initial(max_clients: nat, join_timeout: u64, idle_timeout: Option<u64>) -> ServerView {
    ServerView {
        max_clients,
        join_timeout,
        idle_timeout,
        sessions: Seq::empty(),
        directory: Seq::empty(),
        stopped: false,
    }
}

/// One message for the connection `id`.
pub open spec fn reply(id: u64, msg: ServerMsgView) -> Seq<ActionView> {
    seq![ActionView::Send { to: id, msg }]
}

/// An `Error` with the given reason for the connection `id`, which is then closed.
pub open spec fn reject(id: u64, reason: Seq<char>) -> Seq<ActionView> {
    seq![ActionView::Send { to: id, msg: ServerMsgView::Error(reason) }, ActionView::Close { id }]
}

/// The deliveries of the router as actions, in the same order.
pub open spec fn delivery_actions(ds: Seq<DeliveryView>) -> Seq<ActionView> {
    Seq::new(ds.len(), |i: int| ActionView::Send { to: ds[i].target, msg: ds[i].message })
}

/// One `Close` for every session, in the order of admission.
pub open spec fn close_all(ss: Seq<SessionView>) -> Seq<ActionView> {
    Seq::new(ss.len(), |i: int| ActionView::Close { id: ss[i].id })
}

/// The sessions after traffic at time `now` on the connections `a` and `b`.
pub open spec fn touch_ids(ss: Seq<SessionView>, a: u64, b: u64, now: u64) -> Seq<SessionView> {
    Seq::new(
        ss.len(),
        |k: int|
            if ss[k].id == a || ss[k].id == b {
                touched(ss[k], now)
            } else {
                ss[k]
            },
    )
}

/// The sessions after traffic at time `now` on every joined connection.
pub open spec fn touch_joined(ss: Seq<SessionView>, now: u64) -> Seq<SessionView> {
    Seq::new(
        ss.len(),
        |k: int|
            if ss[k].state == SessionState::Joined {
                touched(ss[k], now)
            } else {
                ss[k]
            },
    )
}

/// The server without its `i`-th session: the session is gone, and so is the
/// directory entry of its name.
pub open spec fn without_session(s: ServerView, i: int) -> ServerView {
    ServerView {
        sessions: s.sessions.remove(i),
        directory: match s.sessions[i].name {
            Some(n) => dir_remove(s.directory, n),
            None => s.directory,
        },
        ..s
    }
}

/// A connection arrives. After shutdown it is closed at once. A handle that
/// a live session holds already is not taken a second time. At capacity the
/// connection is told so and closed, and never enters the state machine.
/// Otherwise it is admitted as a connecting session.
pub open spec fn step_connect(s: ServerView, id: u64, now: u64) -> (ServerView, Seq<ActionView>) {
    if s.stopped {
        (s, seq![ActionView::Close { id }])
    } else if is_live(s.sessions, id) {
        (s, Seq::empty())
    } else if s.sessions.len() >= s.max_clients {
        (s, reject(id, reason_server_full()))
    } else {
        (ServerView { sessions: s.sessions.push(fresh(id, now)), ..s }, Seq::empty())
    }
}

/// A connecting session receives `msg`: a `Join` under a free name is
/// welcomed, anything else ends the session.
pub open spec fn step_connecting(s: ServerView, i: int, msg: ClientMsgView, now: u64) -> (
    ServerView,
    Seq<ActionView>,
) {
    let v = s.sessions[i];
    match msg {
        ClientMsgView::Join { name } => if dir_contains(s.directory, name) {
            (without_session(s, i), reject(v.id, reason_name_taken()))
        } else {
            (
                ServerView {
                    sessions: s.sessions.update(i, joined(v, name, now)),
                    directory: s.directory.push((name, v.id)),
                    ..s
                },
                reply(v.id, ServerMsgView::Welcome),
            )
        },
        _ => (without_session(s, i), reject(v.id, reason_unexpected())),
    }
}

/// A session that joined under the name `me` receives `msg`.
pub open spec fn step_joined(s: ServerView, i: int, me: Seq<char>, msg: ClientMsgView, now: u64) -> (
    ServerView,
    Seq<ActionView>,
) {
    let id = s.sessions[i].id;
    let awake = ServerView { sessions: touch_ids(s.sessions, id, id, now), ..s };
    match msg {
        ClientMsgView::Join { name } => (without_session(s, i), reject(id, reason_unexpected())),
        ClientMsgView::Ping => (awake, reply(id, ServerMsgView::Pong)),
        ClientMsgView::ListUsers => (
            awake,
            reply(id, ServerMsgView::UserList { users: dir_names(s.directory) }),
        ),
        ClientMsgView::SendDM { to, message } => match dm_outcome(s.directory, me, to, message) {
            Err(DmError::SelfDm) => (awake, reply(id, ServerMsgView::Error(reason_self_dm()))),
            Err(DmError::UnknownUser) => (
                awake,
                reply(id, ServerMsgView::Error(reason_unknown_user(to))),
            ),
            Ok(d) => (
                ServerView { sessions: touch_ids(s.sessions, id, d.target, now), ..s },
                reply(d.target, d.message),
            ),
        },
        ClientMsgView::Broadcast { message } => (
            ServerView { sessions: touch_joined(s.sessions, now), ..s },
            delivery_actions(broadcast_deliveries(s.directory, me, message)),
        ),
    }
}

/// The connection `id` delivers `msg`.
pub open spec fn step_message(s: ServerView, id: u64, msg: ClientMsgView, now: u64) -> (
    ServerView,
    Seq<ActionView>,
) {
    if !is_live(s.sessions, id) {
        (s, Seq::empty())
    } else {
        let i = index_of(s.sessions, id);
        match s.sessions[i].name {
            None => step_connecting(s, i, msg, now),
            Some(me) => step_joined(s, i, me, msg, now),
        }
    }
}

/// The connection `id` is gone: its session ends, whatever state it was in.
pub open spec fn step_disconnect(s: ServerView, id: u64) -> (ServerView, Seq<ActionView>) {
    if !is_live(s.sessions, id) {
        (s, Seq::empty())
    } else {
        (without_session(s, index_of(s.sessions, id)), Seq::empty())
    }
}

/// The timer of the connection `id` fires at time `now`: if a timeout has
/// struck the session, it is told so and ends.
pub open spec fn step_timer(s: ServerView, id: u64, now: u64) -> (ServerView, Seq<ActionView>) {
    if !is_live(s.sessions, id) {
        (s, Seq::empty())
    } else {
        let i = index_of(s.sessions, id);
        match timeout_of(s.sessions[i], now, s.join_timeout, s.idle_timeout) {
            None => (s, Seq::empty()),
            Some(TimeoutKind::Join) => (without_session(s, i), reject(id, reason_join_timeout())),
            Some(TimeoutKind::Idle) => (without_session(s, i), reject(id, reason_idle())),
        }
    }
}

/// Shutdown: no connection is accepted from now on, every live session is
/// closed, and the directory is empty.
pub open spec fn step_shutdown(s: ServerView) -> (ServerView, Seq<ActionView>) {
    (
        ServerView { sessions: Seq::empty(), directory: Seq::empty(), stopped: true, ..s },
        close_all(s.sessions),
    )
}

/// One step of the server: the state after `event` at time `now`, and the
/// actions that answer it.
pub open spec fn step(s: ServerView, event: EventView, now: u64) -> (ServerView, Seq<ActionView>) {
    match event {
        EventView::Connect { id } => step_connect(s, id, now),
        EventView::Message { id, msg } => step_message(s, id, msg, now),
        EventView::Disconnect { id } => step_disconnect(s, id),
        EventView::Timer { id } => step_timer(s, id, now),
        EventView::Shutdown => step_shutdown(s),
    }
}

/// The state after a whole sequence of timed events.
pub open spec fn run(s: ServerView, events: Seq<(EventView, u64)>) -> ServerView
    decreases events.len(),
{
    if events.len() == 0 {
        s
    } else {
        step(run(s, events.drop_last()), events.last().0, events.last().1).0
    }
}

/// All actions of a whole sequence of timed events, in the order in which the
/// server issued them.
pub open spec fn trace(s: ServerView, events: Seq<(EventView, u64)>) -> Seq<ActionView>
    decreases events.len(),
{
    if events.len() == 0 {
        Seq::empty()
    } else {
        trace(s, events.drop_last()) + step(
            run(s, events.drop_last()),
            events.last().0,
            events.last().1,
        ).1
    }
}

/// In a well-formed server the session with a given handle stands at one
/// position only.
pub proof fn lemma_index_of(ss: Seq<SessionView>, i: int)
    requires
        distinct_ids(ss),
        0 <= i < ss.len(),
    ensures
        is_live(ss, ss[i].id),
        index_of(ss, ss[i].id) == i,
{
    let id = ss[i].id;
    let j = index_of(ss, id);
    assert(ss[i].id == id);
    if j < i {
        assert(ss[j].id != ss[i].id);
    } else if i < j {
        assert(ss[i].id != ss[j].id);
    }
}

/// Sessions that keep their handles, names and states keep the invariant.
pub proof fn lemma_same_identity_wf(s: ServerView, ss: Seq<SessionView>)
    requires
        s.wf(),
        ss.len() == s.sessions.len(),
        forall|i: int|
            0 <= i < ss.len() ==> (#[trigger] ss[i]).id == s.sessions[i].id && ss[i].name
                == s.sessions[i].name && ss[i].state == s.sessions[i].state,
    ensures
        (ServerView { sessions: ss, ..s }).wf(),
{
    let old_ss = s.sessions;
    let d = s.directory;
    assert forall|i: int, j: int| 0 <= i < j < ss.len() implies (#[trigger] ss[i]).id != (
    #[trigger] ss[j]).id by {
        assert(old_ss[i].id != old_ss[j].id);
    }
    assert forall|i: int| 0 <= i < ss.len() implies {
        &&& (#[trigger] ss[i]).state != SessionState::Closed
        &&& (ss[i].state == SessionState::Joined <==> ss[i].name is Some)
    } by {
        assert(old_ss[i].state != SessionState::Closed);
    }
    assert forall|k: int| 0 <= k < d.len() implies owned(ss, #[trigger] d[k]) by {
        let i = choose|i: int|
            0 <= i < old_ss.len() && (#[trigger] old_ss[i]).id == d[k].1 && old_ss[i].name == Some(
                d[k].0,
            );
        assert(ss[i].id == d[k].1);
    }
    assert forall|i: int| 0 <= i < ss.len() && (#[trigger] ss[i]).name is Some implies dir_lookup(
        d,
        ss[i].name->0,
    ) == Some(ss[i].id) by {
        assert(old_ss[i].name is Some);
    }
}

/// Removing a session, and with it the directory entry of its name, keeps the
/// invariant.
pub proof fn lemma_without_session_wf(s: ServerView, i: int)
    requires
        s.wf(),
        0 <= i < s.sessions.len(),
    ensures
        without_session(s, i).wf(),
{
    let ss = s.sessions;
    let d = s.directory;
    let t = without_session(s, i);
    let ts = t.sessions;
    let td = t.directory;
    assert forall|a: int, b: int| 0 <= a < b < ts.len() implies (#[trigger] ts[a]).id != (
    #[trigger] ts[b]).id by {
        let a0 = if a < i {
            a
        } else {
            a + 1
        };
        let b0 = if b < i {
            b
        } else {
            b + 1
        };
        assert(ss[a0].id != ss[b0].id);
    }
    assert forall|a: int| 0 <= a < ts.len() implies {
        &&& (#[trigger] ts[a]).state != SessionState::Closed
        &&& (ts[a].state == SessionState::Joined <==> ts[a].name is Some)
    } by {
        let a0 = if a < i {
            a
        } else {
            a + 1
        };
        assert(ss[a0].state != SessionState::Closed);
    }
    assert(ss[i].state != SessionState::Closed);
    match ss[i].name {
        None => {},
        Some(n) => {
            lemma_remove_effect(d, n, n);
        },
    }
    assert(dir_unique(td));
    assert forall|k: int| 0 <= k < td.len() implies owned(ts, #[trigger] td[k]) by {
        let m = if ss[i].name is Some {
            choose|m: int| 0 <= m < d.len() && #[trigger] d[m] == td[k]
        } else {
            k
        };
        assert(d[m] == td[k]);
        let a0 = choose|a0: int|
            0 <= a0 < ss.len() && (#[trigger] ss[a0]).id == d[m].1 && ss[a0].name == Some(d[m].0);
        if a0 == i {
            let n = ss[i].name->0;
            assert(td[k].0 == n);
            assert(dir_contains(td, n));
            assert(false);
        }
        let a = if a0 < i {
            a0
        } else {
            a0 - 1
        };
        assert(ts[a] == ss[a0]);
    }
    assert forall|a: int| 0 <= a < ts.len() && (#[trigger] ts[a]).name is Some implies dir_lookup(
        td,
        ts[a].name->0,
    ) == Some(ts[a].id) by {
        let a0 = if a < i {
            a
        } else {
            a + 1
        };
        assert(ss[a0].name is Some);
        let na = ss[a0].name->0;
        match ss[i].name {
            None => {},
            Some(n) => {
                if a0 < i {
                    assert(ss[a0].id != ss[i].id);
                } else {
                    assert(ss[i].id != ss[a0].id);
                }
                assert(ss[i].name is Some);
                assert(dir_lookup(d, n) == Some(ss[i].id));
                assert(na != n);
                lemma_remove_effect(d, n, na);
            },
        }
    }
}

/// Admitting a new connection keeps the invariant.
pub proof fn lemma_connect_wf(s: ServerView, id: u64, now: u64)
    requires
        s.wf(),
    ensures
        step_connect(s, id, now).0.wf(),
{
    let t = step_connect(s, id, now).0;
    if !s.stopped && !is_live(s.sessions, id) && s.sessions.len() < s.max_clients {
        let ss = s.sessions;
        let ts = t.sessions;
        let d = s.directory;
        assert(ts == ss.push(fresh(id, now)));
        assert forall|a: int, b: int| 0 <= a < b < ts.len() implies (#[trigger] ts[a]).id != (
        #[trigger] ts[b]).id by {
            if b == ss.len() {
                assert(ss[a].id != id);
            } else {
                assert(ss[a].id != ss[b].id);
            }
        }
        assert forall|a: int| 0 <= a < ts.len() implies {
            &&& (#[trigger] ts[a]).state != SessionState::Closed
            &&& (ts[a].state == SessionState::Joined <==> ts[a].name is Some)
        } by {
            if a < ss.len() {
                assert(ss[a].state != SessionState::Closed);
            }
        }
        assert forall|k: int| 0 <= k < d.len() implies owned(ts, #[trigger] d[k]) by {
            let a = choose|a: int|
                0 <= a < ss.len() && (#[trigger] ss[a]).id == d[k].1 && ss[a].name == Some(d[k].0);
            assert(ts[a] == ss[a]);
        }
        assert forall|a: int| 0 <= a < ts.len() && (#[trigger] ts[a]).name is Some implies dir_lookup(
            d,
            ts[a].name->0,
        ) == Some(ts[a].id) by {
            if a < ss.len() {
                assert(ss[a].name is Some);
            }
        }
    }
}

/// A successful `Join` keeps the invariant.
pub proof fn lemma_join_wf(s: ServerView, i: int, name: Seq<char>, now: u64)
    requires
        s.wf(),
        0 <= i < s.sessions.len(),
        s.sessions[i].name is None,
        !dir_contains(s.directory, name),
    ensures
        step_connecting(s, i, ClientMsgView::Join { name }, now).0.wf(),
{
    let t = step_connecting(s, i, ClientMsgView::Join { name }, now).0;
    let ss = s.sessions;
    let ts = t.sessions;
    let d = s.directory;
    let td = t.directory;
    let id = ss[i].id;
    assert(td == d.push((name, id)));
    assert(td.drop_last() =~= d);
    assert forall|a: int, b: int| 0 <= a < b < ts.len() implies (#[trigger] ts[a]).id != (
    #[trigger] ts[b]).id by {
        assert(ss[a].id != ss[b].id);
    }
    assert forall|a: int| 0 <= a < ts.len() implies {
        &&& (#[trigger] ts[a]).state != SessionState::Closed
        &&& (ts[a].state == SessionState::Joined <==> ts[a].name is Some)
    } by {
        assert(ss[a].state != SessionState::Closed);
    }
    assert forall|a: int, b: int| 0 <= a < b < td.len() implies (#[trigger] td[a]).0 != (
    #[trigger] td[b]).0 by {
        if b == d.len() {
            assert(d[a].0 != name);
        } else {
            assert(d[a].0 != d[b].0);
        }
    }
    assert forall|k: int| 0 <= k < td.len() implies owned(ts, #[trigger] td[k]) by {
        if k < d.len() {
            let a = choose|a: int|
                0 <= a < ss.len() && (#[trigger] ss[a]).id == d[k].1 && ss[a].name == Some(d[k].0);
            assert(a != i);
            assert(ts[a] == ss[a]);
        } else {
            assert(ts[i].id == id);
        }
    }
    assert forall|a: int| 0 <= a < ts.len() && (#[trigger] ts[a]).name is Some implies dir_lookup(
        td,
        ts[a].name->0,
    ) == Some(ts[a].id) by {
        if a != i {
            assert(ss[a].name is Some);
            let na = ss[a].name->0;
            lemma_lookup_contains(d, na);
            assert(na != name);
        }
    }
}

/// Every step of the server keeps the invariant.
pub proof fn lemma_step_wf(s: ServerView, event: EventView, now: u64)
    requires
        s.wf(),
    ensures
        step(s, event, now).0.wf(),
{
    let ss = s.sessions;
    match event {
        EventView::Connect { id } => {
            lemma_connect_wf(s, id, now);
        },
        EventView::Message { id, msg } => {
            if is_live(ss, id) {
                let i = index_of(ss, id);
                assert(ss[i].state != SessionState::Closed);
                lemma_without_session_wf(s, i);
                match ss[i].name {
                    None => {
                        match msg {
                            ClientMsgView::Join { name } => {
                                if !dir_contains(s.directory, name) {
                                    lemma_join_wf(s, i, name, now);
                                }
                            },
                            _ => {},
                        }
                    },
                    Some(me) => {
                        lemma_same_identity_wf(s, touch_ids(ss, id, id, now));
                        lemma_same_identity_wf(s, touch_joined(ss, now));
                        match msg {
                            ClientMsgView::SendDM { to, message } => {
                                match dm_outcome(s.directory, me, to, message) {
                                    Ok(d) => {
                                        lemma_same_identity_wf(s, touch_ids(ss, id, d.target, now));
                                    },
                                    Err(_) => {},
                                }
                            },
                            _ => {},
                        }
                    },
                }
            }
        },
        EventView::Disconnect { id } => {
            if is_live(ss, id) {
                lemma_without_session_wf(s, index_of(ss, id));
            }
        },
        EventView::Timer { id } => {
            if is_live(ss, id) {
                lemma_without_session_wf(s, index_of(ss, id));
            }
        },
        EventView::Shutdown => {},
    }
}

} // verus!
