//! Per-connection state: the session's place in its lifecycle, its name and
//! the timestamps that timeouts are evaluated against.
use vstd::prelude::*;

verus! {

/// Where a session stands in its lifecycle.
#[derive(Debug, PartialEq, Eq, Clone, Copy, Structural)]
pub enum SessionState {
    /// Admitted, no `Join` received yet.
    Connecting,
    /// Joined under a name that is registered in the directory.
    Joined,
    /// Torn down; a closed session is never used again.
    Closed,
}

/// Which timeout struck a session.
#[derive(Debug, PartialEq, Eq, Clone, Copy, Structural)]
pub enum TimeoutKind {
    /// No `Join` arrived within the join window.
    Join,
    /// A joined session saw no traffic within the idle window.
    Idle,
}

/// Mathematical value of a [`Session`].
pub struct SessionView {
    pub id: u64,
    pub name: Option<Seq<char>>,
    pub state: SessionState,
    pub joined_at: u64,
    pub last_activity: u64,
}

/// Time that has passed at `now` since `since`; zero when the clock reads
/// earlier than `since`.
pub open spec fn elapsed(since: u64, now: u64) -> int {
    if now >= since {
        now - since
    } else {
        0
    }
}

/// The timeout, if any, that has struck the session `v` at time `now`. A
/// connecting session times out once `join_timeout` has elapsed since it was
/// admitted; a joined one once the idle window, where one is configured, has
/// elapsed since its last traffic in either direction.
pub open spec fn timeout_of(
    v: SessionView,
    now: u64,
    join_timeout: u64,
    idle_timeout: Option<u64>,
) -> Option<TimeoutKind> {
    match v.state {
        SessionState::Connecting => if elapsed(v.last_activity, now) >= join_timeout {
            Some(TimeoutKind::Join)
        } else {
            None
        },
        SessionState::Joined => match idle_timeout {
            Some(window) => if elapsed(v.last_activity, now) >= window {
                Some(TimeoutKind::Idle)
            } else {
                None
            },
            None => None,
        },
        SessionState::Closed => None,
    }
}

/// The time at which the session's pending timeout strikes, capped at the
/// largest representable time.
pub open spec fn deadline_of(v: SessionView, join_timeout: u64, idle_timeout: Option<u64>) -> Option<
    u64,
> {
    match v.state {
        SessionState::Connecting => Some(capped_sum(v.last_activity, join_timeout)),
        SessionState::Joined => match idle_timeout {
            Some(window) => Some(capped_sum(v.last_activity, window)),
            None => None,
        },
        SessionState::Closed => None,
    }
}

/// `a + b`, capped at `u64::MAX`.
pub open spec fn capped_sum(a: u64, b: u64) -> u64 {
    if a + b <= u64::MAX {
        (a + b) as u64
    } else {
        u64::MAX
    }
}

/// `v` after traffic at time `now`.
pub open spec fn touched(v: SessionView, now: u64) -> SessionView {
    SessionView { last_activity: now, ..v }
}

/// `v` after a successful `Join` under `name` at time `now`.
pub open spec fn joined(v: SessionView, name: Seq<char>, now: u64) -> SessionView {
    SessionView {
        id: v.id,
        name: Some(name),
        state: SessionState::Joined,
        joined_at: now,
        last_activity: now,
    }
}

/// A session fresh from admission at time `now`.
pub open spec fn fresh(id: u64, now: u64) -> SessionView {
    SessionView {
        id,
        name: None,
        state: SessionState::Connecting,
        joined_at: now,
        last_activity: now,
    }
}

/// Server-side state of one client connection.
pub struct Session {
    id: u64,
    name: Option<String>,
    state: SessionState,
    joined_at: u64,
    last_activity: u64,
}

impl View for Session {
    type V = SessionView;

    closed spec fn view(&self) -> SessionView {
        SessionView {
            id: self.id,
            name: match self.name {
                Some(n) => Some(n@),
                None => None,
            },
            state: self.state,
            joined_at: self.joined_at,
            last_activity: self.last_activity,
        }
    }
}

impl Session {
    /// A session that was admitted at time `now` and awaits its `Join`.
    pub fn new(id: u64, now: u64) -> (s: Session)
        ensures
            s@ == fresh(id, now),
    {
        Session { id, name: None, state: SessionState::Connecting, joined_at: now, last_activity: now }
    }

    /// The connection's handle.
    pub fn id(&self) -> (id: u64)
        ensures
            id == self@.id,
    {
        self.id
    }

    /// The session's place in its lifecycle.
    pub fn state(&self) -> (state: SessionState)
        ensures
            state == self@.state,
    {
        self.state
    }

    /// The name chosen at `Join`, `None` before that.
    pub fn name(&self) -> (name: Option<&String>)
        ensures
            match name {
                Some(n) => self@.name == Some(n@),
                None => self@.name is None,
            },
    {
        match &self.name {
            Some(n) => Some(n),
            None => None,
        }
    }

    /// When the session entered its current stage: its admission, then its `Join`.
    pub fn joined_at(&self) -> (t: u64)
        ensures
            t == self@.joined_at,
    {
        self.joined_at
    }

    /// When the session last sent or received a message.
    pub fn last_activity(&self) -> (t: u64)
        ensures
            t == self@.last_activity,
    {
        self.last_activity
    }

    /// Records a successful `Join` under `name` at time `now`.
    pub fn join(&mut self, name: String, now: u64)
        ensures
            final(self)@ == joined(old(self)@, name@, now),
    {
        self.name = Some(name);
        self.state = SessionState::Joined;
        self.joined_at = now;
        self.last_activity = now;
    }

    /// Records traffic, in either direction, at time `now`.
    pub fn touch(&mut self, now: u64)
        ensures
            final(self)@ == touched(old(self)@, now),
    {
        self.last_activity = now;
    }

    /// Marks the session as torn down.
    pub fn close(&mut self)
        ensures
            final(self)@ == (SessionView { state: SessionState::Closed, ..old(self)@ }),
    {
        self.state = SessionState::Closed;
    }

    /// The timeout, if any, that has struck this session at time `now`.
    pub fn timed_out(&self, now: u64, join_timeout: u64, idle_timeout: Option<u64>) -> (res: Option<
        TimeoutKind,
    >)
        ensures
            res == timeout_of(self@, now, join_timeout, idle_timeout),
    {
        let passed: u64 = if now >= self.last_activity {
            now - self.last_activity
        } else {
            0
        };
        match self.state {
            SessionState::Connecting => if passed >= join_timeout {
                Some(TimeoutKind::Join)
            } else {
                None
            },
            SessionState::Joined => match idle_timeout {
                Some(window) => if passed >= window {
                    Some(TimeoutKind::Idle)
                } else {
                    None
                },
                None => None,
            },
            SessionState::Closed => None,
        }
    }

    /// The time at which this session's pending timeout strikes.
    pub fn deadline(&self, join_timeout: u64, idle_timeout: Option<u64>) -> (res: Option<u64>)
        ensures
            res == deadline_of(self@, join_timeout, idle_timeout),
    {
        match self.state {
            SessionState::Connecting => Some(self.last_activity.saturating_add(join_timeout)),
            SessionState::Joined => match idle_timeout {
                Some(window) => Some(self.last_activity.saturating_add(window)),
                None => None,
            },
            SessionState::Closed => None,
        }
    }
}

/// On a clock that does not run backwards, a timeout strikes exactly from its
/// deadline on, as long as the deadline can be represented.
pub proof fn lemma_deadline_is_timeout(
    v: SessionView,
    now: u64,
    join_timeout: u64,
    idle_timeout: Option<u64>,
)
    requires
        now >= v.last_activity,
        deadline_of(v, join_timeout, idle_timeout) matches Some(d) && d < u64::MAX,
    ensures
        timeout_of(v, now, join_timeout, idle_timeout) is Some <==> now >= deadline_of(
            v,
            join_timeout,
            idle_timeout,
        )->0,
{
}

} // verus!
