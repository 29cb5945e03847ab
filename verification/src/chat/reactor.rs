//! The bookkeeping of a readiness-driven event loop: which task waits for
//! which descriptor, and what the accepting task does next. Waiting for
//! readiness, and reading and writing, are left to the surrounding program.
use vstd::prelude::*;

verus! {

/// How far the task that accepts connections has come.
#[derive(Debug, Clone, Copy, PartialEq, Eq, Structural)]
pub enum ServerFutureState {
    /// The listening socket is not watched yet.
    Start,
    /// The listening socket is watched; connections are accepted when it is ready.
    Accepting,
}

/// What an attempt to accept a connection brought.
#[derive(Debug, Clone, Copy, PartialEq, Eq, Structural)]
pub enum AcceptOutcome {
    /// No connection is waiting.
    WouldBlock,
    /// A connection was accepted.
    Accepted,
}

/// What the accepting task asks for when it is woken.
#[derive(Debug, Clone, Copy, PartialEq, Eq, Structural)]
pub enum ServerStep {
    /// Watch the listening socket for readiness.
    Watch,
    /// Try to accept a connection.
    Accept,
}

/// What the accepting task does with an accepted connection.
#[derive(Debug, Clone, Copy, PartialEq, Eq, Structural)]
pub enum ServerReaction {
    /// Nothing is to be done until the socket is ready again.
    Wait,
    /// Make the connection non-blocking and start a task for it.
    Spawn,
}

/// What the accepting task asks for in the state `state`, and the state it
/// is in afterwards.
pub open spec fn server_step(state: ServerFutureState) -> (ServerStep, ServerFutureState) {
    match state {
        ServerFutureState::Start => (ServerStep::Watch, ServerFutureState::Accepting),
        ServerFutureState::Accepting => (ServerStep::Accept, ServerFutureState::Accepting),
    }
}

/// What the accepting task asks for when it is woken, and its next state.
pub fn server_progress(state: ServerFutureState) -> (res: (ServerStep, ServerFutureState))
    ensures
        res == server_step(state),
{
    match state {
        ServerFutureState::Start => (ServerStep::Watch, ServerFutureState::Accepting),
        ServerFutureState::Accepting => (ServerStep::Accept, ServerFutureState::Accepting),
    }
}

/// What the accepting task does after it tried to accept a connection.
pub fn after_accept(outcome: AcceptOutcome) -> (reaction: ServerReaction)
    ensures
        reaction == match outcome {
            AcceptOutcome::WouldBlock => ServerReaction::Wait,
            AcceptOutcome::Accepted => ServerReaction::Spawn,
        },
{
    match outcome {
        AcceptOutcome::WouldBlock => ServerReaction::Wait,
        AcceptOutcome::Accepted => ServerReaction::Spawn,
    }
}

/// The positions `k < n` of the tasks that wait for the descriptor `fd`, in
/// ascending order.
pub open spec fn waiting_for(tasks: Seq<Seq<i32>>, fd: i32, n: nat) -> Seq<usize>
    decreases n,
{
    if n == 0 {
        Seq::empty()
    } else {
        let rest = waiting_for(tasks, fd, (n - 1) as nat);
        if tasks[n - 1].contains(fd) {
            rest.push((n - 1) as usize)
        } else {
            rest
        }
    }
}

/// The tasks of an event loop, each with the descriptors it waits for.
pub struct EventLoop {
    tasks: Vec<Vec<i32>>,
}

impl View for EventLoop {
    type V = Seq<Seq<i32>>;

    closed spec fn view(&self) -> Seq<Seq<i32>> {
        Seq::new(self.tasks@.len(), |i: int| self.tasks@[i]@)
    }
}

impl Default for EventLoop {
    fn default() -> (el: EventLoop)
        ensures
            el@ == Seq::<Seq<i32>>::empty(),
    {
        let el = EventLoop { tasks: Vec::new() };
        assert(el@ =~= Seq::<Seq<i32>>::empty());
        el
    }
}

impl EventLoop {
    /// The number of tasks.
    pub fn len(&self) -> (n: usize)
        ensures
            n == self@.len(),
    {
        self.tasks.len()
    }

    /// Adds a task that waits for nothing yet; returns its position.
    pub fn add(&mut self) -> (task: usize)
        ensures
            task == old(self)@.len(),
            final(self)@ == old(self)@.push(Seq::<i32>::empty()),
    {
        let ghost before = self@;
        let task = self.tasks.len();
        self.tasks.push(Vec::new());
        assert(self@ =~= before.push(Seq::<i32>::empty()));
        task
    }

    /// Lets the task at position `task` wait for the descriptor `fd`.
    pub fn watch(&mut self, task: usize, fd: i32)
        requires
            task < old(self)@.len(),
        ensures
            final(self)@ == old(self)@.update(task as int, old(self)@[task as int].push(fd)),
    {
        let ghost before = self@;
        self.tasks[task].push(fd);
        assert(self@ =~= before.update(task as int, before[task as int].push(fd)));
    }

    /// Whether the task at position `task` waits for the descriptor `fd`.
    fn waits_for(&self, task: usize, fd: i32) -> (b: bool)
        requires
            task < self@.len(),
        ensures
            b == self@[task as int].contains(fd),
    {
        let fds = &self.tasks[task];
        let mut i: usize = 0;
        while i < fds.len()
            invariant
                i <= fds.len(),
                fds@ == self@[task as int],
                forall|k: int| 0 <= k < i ==> fds@[k] != fd,
            decreases fds.len() - i,
        {
            if fds[i] == fd {
                return true;
            }
            i = i + 1;
        }
        false
    }

    /// The tasks that are to be woken when the descriptor `fd` is ready.
    pub fn ready(&self, fd: i32) -> (tasks: Vec<usize>)
        ensures
            tasks@ == waiting_for(self@, fd, self@.len()),
    {
        let mut tasks: Vec<usize> = Vec::new();
        let mut i: usize = 0;
        while i < self.tasks.len()
            invariant
                i <= self.tasks.len(),
                tasks@ == waiting_for(self@, fd, i as nat),
            decreases self.tasks.len() - i,
        {
            if self.waits_for(i, fd) {
                tasks.push(i);
            }
            i = i + 1;
        }
        tasks
    }
}

} // verus!
