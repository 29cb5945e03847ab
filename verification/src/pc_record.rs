//! The computer of [`crate::pc`] once more, kept as a record of flags and
//! times rather than as one of three states.
use crate::pc::{transition, ComputerState as State, Event};
use vstd::prelude::*;

verus! {

/// The state of the computer. A computer that is off has no times; one
/// that runs has no sleep time; one that sleeps has no idle time.
#[derive(Debug, Clone, Copy, PartialEq, Eq, Structural)]
pub struct ComputerState {
    on: bool,
    sleeping: bool,
    uptime: u32,
    idle_time: u32,
    sleep_time: u32,
}

impl View for ComputerState {
    type V = State;

    /// The state that the record stands for.
    closed spec fn view(&self) -> State {
        if !self.on {
            State::Off
        } else if self.sleeping {
            State::Sleeping { uptime: self.uptime, sleep_time: self.sleep_time }
        } else {
            State::Running { uptime: self.uptime, idle_time: self.idle_time }
        }
    }
}

impl ComputerState {
    /// The record's invariant: what has no meaning in its state is zero.
    pub closed spec fn wf(&self) -> bool {
        &&& !self.on ==> !self.sleeping && self.uptime == 0 && self.idle_time == 0
            && self.sleep_time == 0
        &&& self.on && self.sleeping ==> self.idle_time == 0
        &&& self.on && !self.sleeping ==> self.sleep_time == 0
    }

    /// The record of the state `state`.
    fn of(state: State) -> (c: ComputerState)
        ensures
            c.wf(),
            c@ == state,
    {
        match state {
            State::Off => ComputerState {
                on: false,
                sleeping: false,
                uptime: 0,
                idle_time: 0,
                sleep_time: 0,
            },
            State::Running { uptime, idle_time } => ComputerState {
                on: true,
                sleeping: false,
                uptime,
                idle_time,
                sleep_time: 0,
            },
            State::Sleeping { uptime, sleep_time } => ComputerState {
                on: true,
                sleeping: true,
                uptime,
                idle_time: 0,
                sleep_time,
            },
        }
    }

    /// The state that the record stands for.
    fn state(&self) -> (s: State)
        ensures
            s == self@,
    {
        if !self.on {
            State::Off
        } else if self.sleeping {
            State::Sleeping { uptime: self.uptime, sleep_time: self.sleep_time }
        } else {
            State::Running { uptime: self.uptime, idle_time: self.idle_time }
        }
    }

    /// A computer that is turned off.
    pub fn new_off() -> (c: ComputerState)
        ensures
            c.wf(),
            c@ == State::Off,
    {
        ComputerState::of(State::Off)
    }

    /// A computer that has just been turned on.
    pub fn new_on() -> (c: ComputerState)
        ensures
            c.wf(),
            c@ == (State::Running { uptime: 0, idle_time: 0 }),
    {
        ComputerState::of(State::Running { uptime: 0, idle_time: 0 })
    }

    /// Whether the computer is on, running or asleep.
    pub fn is_on(&self) -> (b: bool)
        ensures
            b == (self@ != State::Off),
    {
        self.on
    }

    /// Whether the computer is asleep.
    pub fn is_sleeping(&self) -> (b: bool)
        ensures
            b == (self@ is Sleeping),
    {
        self.on && self.sleeping
    }

    /// Time from the start of the computer; zero when it is off.
    pub fn uptime(&self) -> (t: u32)
        requires
            self.wf(),
        ensures
            t == match self@ {
                State::Off => 0,
                State::Running { uptime, idle_time } => uptime,
                State::Sleeping { uptime, sleep_time } => uptime,
            },
    {
        self.uptime
    }

    /// Time since the last mouse move; zero unless the computer runs.
    pub fn idle_time(&self) -> (t: u32)
        requires
            self.wf(),
        ensures
            t == match self@ {
                State::Running { uptime, idle_time } => idle_time,
                _ => 0,
            },
    {
        self.idle_time
    }

    /// Time since the computer fell asleep; zero unless it sleeps.
    pub fn sleep_time(&self) -> (t: u32)
        requires
            self.wf(),
        ensures
            t == match self@ {
                State::Sleeping { uptime, sleep_time } => sleep_time,
                _ => 0,
            },
    {
        self.sleep_time
    }
}

/// Moves the computer to the state that `event` leads to.
pub fn pc_transition(computer: ComputerState, event: Event) -> (next: ComputerState)
    ensures
        next.wf(),
        next@ == transition(computer@, event),
{
    ComputerState::of(crate::pc::pc_transition(computer.state(), event))
}

} // verus!
