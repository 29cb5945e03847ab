use workshop::pc::Event;
use workshop::pc_record::{pc_transition, ComputerState};

#[test]
fn record_turn_off_when_off() {

    let pc = ComputerState::new_off();
    let pc = pc_transition(pc, Event::TurnOff);
    assert!(!pc.is_on());
    assert!(!pc.is_sleeping());
    assert_eq!(pc.uptime(), 0);
    assert_eq!(pc.idle_time(), 0);
    assert_eq!(pc.sleep_time(), 0);
}

#[test]
fn record_turn_off_when_running() {
    let pc = ComputerState::new_on();
    let pc = pc_transition(pc, Event::TurnOff);
    assert!(!pc.is_on());
    assert!(!pc.is_sleeping());
    assert_eq!(pc.uptime(), 0);
    assert_eq!(pc.idle_time(), 0);
    assert_eq!(pc.sleep_time(), 0);
}

#[test]
fn record_turn_off_when_sleeping() {
    let pc = ComputerState::new_on();
    let pc = pc_transition(pc, Event::PassTime(1000));
    let pc = pc_transition(pc, Event::TurnOff);
    assert!(!pc.is_on());
    assert!(!pc.is_sleeping());
    assert_eq!(pc.uptime(), 0);
    assert_eq!(pc.idle_time(), 0);
    assert_eq!(pc.sleep_time(), 0);
}

#[test]
fn record_turn_on_when_off() {
    let pc = ComputerState::new_off();
    let pc = pc_transition(pc, Event::TurnOn);

    assert!(pc.is_on());
    assert!(!pc.is_sleeping());
    assert_eq!(pc.uptime(), 0);
    assert_eq!(pc.idle_time(), 0);
    assert_eq!(pc.sleep_time(), 0);
}

#[test]
fn record_turn_on_when_running() {
    let pc = ComputerState::new_on();
    let pc = pc_transition(pc, Event::TurnOn);
    let pc = pc_transition(pc, Event::TurnOn);

    assert!(pc.is_on());
    assert!(!pc.is_sleeping());
    assert_eq!(pc.uptime(), 0);
    assert_eq!(pc.idle_time(), 0);
    assert_eq!(pc.sleep_time(), 0);
}

#[test]
fn record_turn_on_when_sleeping() {
    let pc = ComputerState::new_on();
    let pc = pc_transition(pc, Event::TurnOn);
    let pc = pc_transition(pc, Event::PassTime(1100));
    let pc = pc_transition(pc, Event::TurnOn);

    assert!(pc.is_on());
    assert!(pc.is_sleeping());
    assert_eq!(pc.uptime(), 1100);
    assert_eq!(pc.idle_time(), 0);
    assert_eq!(pc.sleep_time(), 100);
}

#[test]
fn record_pass_time_off() {
    let pc = ComputerState::new_off();
    let pc = pc_transition(pc, Event::PassTime(1100));

    assert!(!pc.is_on());
    assert!(!pc.is_sleeping());
    assert_eq!(pc.uptime(), 0);
    assert_eq!(pc.idle_time(), 0);
    assert_eq!(pc.sleep_time(), 0);
}

#[test]
fn record_pass_time_running() {
    let pc = ComputerState::new_on();
    let pc = pc_transition(pc, Event::PassTime(20));
    let pc = pc_transition(pc, Event::MoveMouse);
    let pc = pc_transition(pc, Event::PassTime(120));
    let pc = pc_transition(pc, Event::PassTime(123));

    assert!(pc.is_on());
    assert!(!pc.is_sleeping());
    assert_eq!(pc.uptime(), 263);
    assert_eq!(pc.idle_time(), 243);
    assert_eq!(pc.sleep_time(), 0);
}

#[test]
fn record_pass_time_go_to_sleep() {
    let pc = ComputerState::new_on();
    let pc = pc_transition(pc, Event::PassTime(800));
    let pc = pc_transition(pc, Event::PassTime(320));

    assert!(pc.is_on());
    assert!(pc.is_sleeping());
    assert_eq!(pc.uptime(), 1120);
    assert_eq!(pc.idle_time(), 0);
    assert_eq!(pc.sleep_time(), 120);
}

#[test]
fn record_pass_time_sleeping() {
    let pc = ComputerState::new_on();
    let pc = pc_transition(pc, Event::PassTime(1100));
    let pc = pc_transition(pc, Event::PassTime(320));

    assert!(pc.is_on());
    assert!(pc.is_sleeping());
    assert_eq!(pc.uptime(), 1420);
    assert_eq!(pc.idle_time(), 0);
    assert_eq!(pc.sleep_time(), 420);
}

#[test]
fn record_pass_time_shutdown() {
    let pc = ComputerState::new_on();
    let pc = pc_transition(pc, Event::PassTime(800));
    let pc = pc_transition(pc, Event::PassTime(10000));

    assert!(!pc.is_on());
    assert!(!pc.is_sleeping());
    assert_eq!(pc.uptime(), 0);
    assert_eq!(pc.idle_time(), 0);
    assert_eq!(pc.sleep_time(), 0);
}

#[test]
fn record_pass_time_sleeping_turn_off() {
    let pc = ComputerState::new_on();
    let pc = pc_transition(pc, Event::PassTime(800));
    let pc = pc_transition(pc, Event::PassTime(120));
    let pc = pc_transition(pc, Event::PassTime(700));

    assert!(!pc.is_on());
    assert!(!pc.is_sleeping());
    assert_eq!(pc.uptime(), 0);
    assert_eq!(pc.idle_time(), 0);
    assert_eq!(pc.sleep_time(), 0);
}

#[test]
fn record_mouse_move_off() {
    let pc = ComputerState::new_off();
    let pc = pc_transition(pc, Event::PassTime(800));
    let pc = pc_transition(pc, Event::TurnOff);
    let pc = pc_transition(pc, Event::MoveMouse);

    assert!(!pc.is_on());
    assert!(!pc.is_sleeping());
    assert_eq!(pc.uptime(), 0);
    assert_eq!(pc.idle_time(), 0);
    assert_eq!(pc.sleep_time(), 0);
}

#[test]
fn record_mouse_move_running() {
    let pc = ComputerState::new_on();
    let pc = pc_transition(pc, Event::PassTime(500));
    let pc = pc_transition(pc, Event::PassTime(100));
    let pc = pc_transition(pc, Event::MoveMouse);

    assert!(pc.is_on());
    assert!(!pc.is_sleeping());
    assert_eq!(pc.uptime(), 600);
    assert_eq!(pc.idle_time(), 0);
    assert_eq!(pc.sleep_time(), 0);
}

#[test]
fn record_mouse_move_wake() {
    let pc = ComputerState::new_on();
    let pc = pc_transition(pc, Event::PassTime(500));
    let pc = pc_transition(pc, Event::PassTime(600));
    let pc = pc_transition(pc, Event::MoveMouse);

    assert!(pc.is_on());
    assert!(!pc.is_sleeping());
    assert_eq!(pc.uptime(), 1100);
    assert_eq!(pc.idle_time(), 0);
    assert_eq!(pc.sleep_time(), 0);
}

#[test]
fn record_complex_transition_1() {
    let mut pc = ComputerState::new_off();
    let events = [
        Event::TurnOn,
        Event::PassTime(100),
        Event::PassTime(50),
        Event::MoveMouse,
        Event::PassTime(500),
        Event::PassTime(600),
        Event::PassTime(100),
        Event::MoveMouse,
        Event::PassTime(20),
        Event::PassTime(100),
    ];
    for event in events {
        pc = pc_transition(pc, event);
    }
    assert!(pc.is_on());
    assert!(!pc.is_sleeping());
    assert_eq!(pc.uptime(), 1470);
    assert_eq!(pc.idle_time(), 120);
    assert_eq!(pc.sleep_time(), 0);
}

#[test]
fn record_complex_transition_2() {
    let mut pc = ComputerState::new_off();
    let events = [
        Event::TurnOn,
        Event::PassTime(100),
        Event::PassTime(50),
        Event::MoveMouse,
        Event::PassTime(500),
        Event::PassTime(600),
        Event::TurnOff,
        Event::MoveMouse,
        Event::PassTime(600),
        Event::TurnOn,
        Event::PassTime(100),
        Event::MoveMouse,
        Event::PassTime(20),
        Event::PassTime(100),
        Event::PassTime(1000),
        Event::TurnOn,
        Event::PassTime(150),
    ];
    for event in events {
        pc = pc_transition(pc, event);
    }
    assert!(pc.is_on());
    assert!(pc.is_sleeping());
    assert_eq!(pc.uptime(), 1370);
    assert_eq!(pc.idle_time(), 0);
    assert_eq!(pc.sleep_time(), 270);
}
