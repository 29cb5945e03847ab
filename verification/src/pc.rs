//! A computer that is off, running or asleep, and the events that move it
//! from one state to another.
use vstd::prelude::*;

verus! {

/// Idle time above which a running computer falls asleep.
pub const IDLE_LIMIT: u32 = 1000;

/// Sleep time above which a sleeping computer turns itself off.
pub const SLEEP_LIMIT: u32 = 500;

/// The state of the computer.
#[derive(Debug, Clone, Copy, PartialEq, Eq, Structural)]
pub enum ComputerState {
    Off,
    Running {
        /// Time from the start of the computer.
        uptime: u32,
        /// Time since the last mouse move, or since the start.
        idle_time: u32,
    },
    Sleeping {
        /// Time from the start of the computer.
        uptime: u32,
        /// Time since the computer fell asleep.
        sleep_time: u32,
    },
}

/// What happens to the computer.
#[derive(Debug, Clone, Copy, PartialEq, Eq, Structural)]
pub enum Event {
    TurnOn,
    TurnOff,
    PassTime(u32),
    MoveMouse,
}

/// `a + b`, capped at the largest time that can be represented.
pub open spec fn capped_add(a: u32, b: u32) -> u32 {
    if a + b > u32::MAX {
        u32::MAX
    } else {
        (a + b) as u32
    }
}

/// The state after `time` has passed in the state `state`. A running
/// computer whose idle time exceeds the limit has fallen asleep when the
/// limit was reached; a sleeping computer whose sleep time exceeds its limit
/// is off.
pub open spec fn after_time(state: ComputerState, time: u32) -> ComputerState {
    match state {
        ComputerState::Off => ComputerState::Off,
        ComputerState::Running { uptime, idle_time } => {
            let idle = capped_add(idle_time, time);
            if idle > IDLE_LIMIT {
                asleep(capped_add(uptime, time), (idle - IDLE_LIMIT) as u32)
            } else {
                ComputerState::Running { uptime: capped_add(uptime, time), idle_time: idle }
            }
        },
        ComputerState::Sleeping { uptime, sleep_time } => asleep(
            capped_add(uptime, time),
            capped_add(sleep_time, time),
        ),
    }
}

/// A computer that has slept for `sleep_time`: still asleep, or off by now.
pub open spec fn asleep(uptime: u32, sleep_time: u32) -> ComputerState {
    if sleep_time > SLEEP_LIMIT {
        ComputerState::Off
    } else {
        ComputerState::Sleeping { uptime, sleep_time }
    }
}

/// The state that `event` leads to from `state`.
pub open spec fn transition(state: ComputerState, event: Event) -> ComputerState {
    match event {
        Event::TurnOn => match state {
            ComputerState::Off => ComputerState::Running { uptime: 0, idle_time: 0 },
            _ => state,
        },
        Event::TurnOff => ComputerState::Off,
        Event::MoveMouse => match state {
            ComputerState::Off => ComputerState::Off,
            ComputerState::Running { uptime, idle_time } => ComputerState::Running {
                uptime,
                idle_time: 0,
            },
            ComputerState::Sleeping { uptime, sleep_time } => ComputerState::Running {
                uptime,
                idle_time: 0,
            },
        },
        Event::PassTime(time) => after_time(state, time),
    }
}

/// The limits hold in every state that a transition leads to, if they held before.
pub open spec fn within_limits(state: ComputerState) -> bool {
    match state {
        ComputerState::Off => true,
        ComputerState::Running { uptime, idle_time } => idle_time <= IDLE_LIMIT,
        ComputerState::Sleeping { uptime, sleep_time } => sleep_time <= SLEEP_LIMIT,
    }
}

/// No transition leads to a state in which a limit is exceeded.
pub proof fn lemma_limits_kept(state: ComputerState, event: Event)
    requires
        within_limits(state),
    ensures
        within_limits(transition(state, event)),
{
}

/// A computer that is off ignores everything but being turned on.
pub proof fn lemma_off_stays_off(event: Event)
    requires
        event != Event::TurnOn,
    ensures
        transition(ComputerState::Off, event) == ComputerState::Off,
{
}

/// Moves the computer from `state` to the state that `event` leads to.
pub fn pc_transition(state: ComputerState, event: Event) -> (next: ComputerState)
    ensures
        next == transition(state, event),
{
    match (state, event) {
        (ComputerState::Off, Event::TurnOn) => ComputerState::Running { uptime: 0, idle_time: 0 },
        (_, Event::TurnOn) => state,
        (_, Event::TurnOff) => ComputerState::Off,
        (ComputerState::Off, Event::MoveMouse | Event::PassTime(_)) => ComputerState::Off,
        (
            ComputerState::Running { uptime, .. } | ComputerState::Sleeping { uptime, .. },
            Event::MoveMouse,
        ) => ComputerState::Running { uptime, idle_time: 0 },
        (ComputerState::Running { uptime, idle_time }, Event::PassTime(time)) => {
            let idle = idle_time.saturating_add(time);
            let up = uptime.saturating_add(time);
            if idle > IDLE_LIMIT {
                let slept = idle - IDLE_LIMIT;
                if slept > SLEEP_LIMIT {
                    ComputerState::Off
                } else {
                    ComputerState::Sleeping { uptime: up, sleep_time: slept }
                }
            } else {
                ComputerState::Running { uptime: up, idle_time: idle }
            }
        },
        (ComputerState::Sleeping { uptime, sleep_time }, Event::PassTime(time)) => {
            let slept = sleep_time.saturating_add(time);
            if slept > SLEEP_LIMIT {
                ComputerState::Off
            } else {
                ComputerState::Sleeping { uptime: uptime.saturating_add(time), sleep_time: slept }
            }
        },
    }
}

} // verus!
