//! Unit tests for construction, lookups, requests and the door override.

use elevator::{Direction, DoorState, Elevator, FloorConfig};

fn config(level: i8, label: &str, cue: &[u8]) -> FloorConfig {
    FloorConfig { level, label: label.to_string(), announcement_cue: cue.to_vec() }
}

fn make_car() -> Elevator {
    Elevator::new(vec![
        config(-2, "B2", b"chika/nikai.\r"),
        config(-1, "B1", b"chika/ikkai.\r"),
        config(1, "1", b"ikkai.\r"),
        config(2, "2", b"nikai.\r"),
        config(3, "3", b"sangai.\r"),
        config(4, "4", b"yonkai.\r"),
        config(5, "5", b"gokai.\r"),
        config(6, "6", b"rokkai.\r"),
    ])
}

fn no_presses() -> Vec<bool> {
    vec![false; 8]
}

fn tick(car: &mut Elevator) -> elevator::Notifications {
    let pressed = no_presses();
    car.advance(&pressed)
}

#[test]
fn new_starts_idle_at_ground_floor() {
    let car = make_car();
    assert_eq!(car.current_floor_index, 2);
    assert_eq!(car.direction, Direction::Idle);
    assert_eq!(car.door, DoorState::Closed);
    for floor in &car.floors {
        assert!(!floor.requested);
        assert!(!floor.indicator_on);
    }
    assert_eq!(car.floors[2].level, 1);
    assert_eq!(car.floors[0].label, "B2");
    assert_eq!(car.floors[4].announcement_cue, b"sangai.\r".to_vec());
}

#[test]
fn floor_to_index_finds_levels() {
    let car = make_car();
    assert_eq!(car.floor_to_index(-2), 0);
    assert_eq!(car.floor_to_index(-1), 1);
    assert_eq!(car.floor_to_index(1), 2);
    assert_eq!(car.floor_to_index(6), 7);
}

#[test]
fn index_to_floor_reads_levels() {
    let car = make_car();
    assert_eq!(car.index_to_floor(0), -2);
    assert_eq!(car.index_to_floor(2), 1);
    assert_eq!(car.index_to_floor(7), 6);
}

#[test]
fn request_stop_marks_and_lights() {
    let mut car = make_car();
    assert!(car.request_stop(4));
    assert!(car.floors[5].requested);
    assert!(car.floors[5].indicator_on);
    assert!(!car.floors[4].requested);
}

#[test]
fn request_stop_unknown_level_is_ignored() {
    let mut car = make_car();
    assert!(!car.request_stop(0));
    assert!(!car.request_stop(7));
    assert!(!car.request_stop(-3));
    for floor in &car.floors {
        assert!(!floor.requested);
        assert!(!floor.indicator_on);
    }
}

#[test]
fn request_stop_is_idempotent() {
    let mut car = make_car();
    assert!(car.request_stop(4));
    let requested_once: Vec<bool> = car.floors.iter().map(|f| f.requested).collect();
    let lit_once: Vec<bool> = car.floors.iter().map(|f| f.indicator_on).collect();
    assert!(!car.request_stop(4));
    let requested_twice: Vec<bool> = car.floors.iter().map(|f| f.requested).collect();
    let lit_twice: Vec<bool> = car.floors.iter().map(|f| f.indicator_on).collect();
    assert_eq!(requested_once, requested_twice);
    assert_eq!(lit_once, lit_twice);
}

#[test]
fn door_override_opens_from_closed_idle() {
    let mut car = make_car();
    assert!(car.set_door_open(true));
    assert_eq!(car.door, DoorState::Opening(0));
    // Already opening: a second request is rejected.
    assert!(!car.set_door_open(true));
    assert_eq!(car.door, DoorState::Opening(0));
}

#[test]
fn door_override_refreshes_open_dwell() {
    let mut car = make_car();
    car.set_door_open(true);
    // 20 ticks of opening, one transition tick, a few dwell ticks.
    for _ in 0..25 {
        tick(&mut car);
    }
    assert!(matches!(car.door, DoorState::Open(p) if p > 0));
    assert!(car.set_door_open(true));
    assert_eq!(car.door, DoorState::Open(0));
}

#[test]
fn door_override_reverses_closing_door() {
    let mut car = make_car();
    car.set_door_open(true);
    for _ in 0..25 {
        tick(&mut car);
    }
    assert!(car.set_door_open(false));
    assert_eq!(car.door, DoorState::Closing(0));
    tick(&mut car); // Closing(0) -> Closing(5), announcing.
    tick(&mut car); // Closing(5) -> Closing(10).
    assert_eq!(car.door, DoorState::Closing(10));
    assert!(car.set_door_open(true));
    assert_eq!(car.door, DoorState::Opening(90));
}

#[test]
fn door_override_close_requires_open_door() {
    let mut car = make_car();
    assert!(!car.set_door_open(false));
    assert_eq!(car.door, DoorState::Closed);
    car.set_door_open(true);
    assert!(!car.set_door_open(false));
    for _ in 0..21 {
        tick(&mut car);
    }
    assert_eq!(car.door, DoorState::Open(0));
    assert!(car.set_door_open(false));
    assert_eq!(car.door, DoorState::Closing(0));
}

#[test]
fn door_override_rejected_while_travelling() {
    // Scenario: door closed and a travel direction committed - the override
    // must not interrupt the run.
    let mut car = make_car();
    car.request_stop(5);
    tick(&mut car);
    assert_eq!(car.direction, Direction::Up(Some(0)));
    assert_eq!(car.door, DoorState::Closed);
    assert!(!car.set_door_open(true));
    assert_eq!(car.door, DoorState::Closed);
    assert_eq!(car.direction, Direction::Up(Some(0)));
}

#[test]
fn door_opening_takes_twenty_ticks() {
    let mut car = make_car();
    car.set_door_open(true);
    for expected in 1..=20u8 {
        tick(&mut car);
        assert_eq!(car.door, DoorState::Opening(expected * 5));
    }
    tick(&mut car);
    assert_eq!(car.door, DoorState::Open(0));
}

#[test]
fn door_dwell_takes_fifty_ticks() {
    let mut car = make_car();
    car.set_door_open(true);
    for _ in 0..21 {
        tick(&mut car);
    }
    assert_eq!(car.door, DoorState::Open(0));
    for expected in 1..=50u8 {
        tick(&mut car);
        assert_eq!(car.door, DoorState::Open(expected * 2));
    }
    tick(&mut car);
    assert_eq!(car.door, DoorState::Closing(0));
}

#[test]
fn door_openness_follows_door_state() {
    let mut car = make_car();
    assert_eq!(car.door_openness(), 0);
    car.set_door_open(true);
    assert_eq!(car.door_openness(), 0);
    for _ in 0..4 {
        tick(&mut car);
    }
    assert_eq!(car.door, DoorState::Opening(20));
    assert_eq!(car.door_openness(), 20);
    for _ in 0..17 {
        tick(&mut car);
    }
    assert_eq!(car.door, DoorState::Open(0));
    assert_eq!(car.door_openness(), 100);
    assert!(car.set_door_open(false));
    tick(&mut car);
    tick(&mut car);
    assert_eq!(car.door, DoorState::Closing(10));
    assert_eq!(car.door_openness(), 90);
}

#[test]
fn repaints_fire_only_on_change() {
    let mut car = make_car();
    // Idle, nothing pending: no externally visible change.
    let n = tick(&mut car);
    assert_eq!(n.repaints, 0);
    assert!(n.announcement.is_none());
    // Opening the door is one visible change per tick while it moves.
    car.set_door_open(true);
    let n = tick(&mut car);
    assert_eq!(n.repaints, 1);
}
