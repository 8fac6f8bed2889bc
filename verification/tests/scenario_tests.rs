//! Scenario tests: full runs of the tick loop, call capture and the
//! announcement cues.

use elevator::{Direction, DoorState, Elevator, FloorConfig, Notifications};

fn config(level: i8, label: &str, cue: &[u8]) -> FloorConfig {
    FloorConfig { level, label: label.to_string(), announcement_cue: cue.to_vec() }
}

fn make_car() -> Elevator {
    Elevator::new(vec![
        config(-2, "B2", b"chika/nikai.\r"),
        config(-1, "B1", b"chika/ikkai.\r"),
        config(1, "1", b"ikkai.\r"),
        config(2, "2", b"nikai.\r"),
        config(3, "3", b"sangai.\r"),
        config(4, "4", b"yonkai.\r"),
        config(5, "5", b"gokai.\r"),
        config(6, "6", b"rokkai.\r"),
    ])
}

fn tick(car: &mut Elevator) -> Notifications {
    let pressed = vec![false; 8];
    car.advance(&pressed)
}

/// Ticks until the door is closed again, returning every announcement made.
fn run_until_closed(car: &mut Elevator, bound: usize) -> Vec<Vec<u8>> {
    let mut announcements = Vec::new();
    for _ in 0..bound {
        let n = tick(car);
        if let Some(a) = n.announcement {
            announcements.push(a);
        }
        if car.door == DoorState::Closed {
            return announcements;
        }
    }
    panic!("door did not close within {} ticks", bound);
}

#[test]
fn idle_car_without_requests_stays_put() {
    // Scenario: idle at the ground floor, no requests anywhere.
    let mut car = make_car();
    for _ in 0..200 {
        let n = tick(&mut car);
        assert_eq!(car.current_floor_index, 2);
        assert_eq!(car.direction, Direction::Idle);
        assert_eq!(car.door, DoorState::Closed);
        assert_eq!(n.repaints, 0);
        assert!(n.announcement.is_none());
    }
}

#[test]
fn requested_floor_is_serviced_and_cleared() {
    // Round trip at the car's own floor: request, full door cycle, cleared.
    let mut car = make_car();
    assert!(car.request_stop(1));
    assert!(car.floors[2].requested);
    tick(&mut car);
    assert_eq!(car.door, DoorState::Opening(0));
    assert_eq!(car.direction, Direction::Idle);
    let announcements = run_until_closed(&mut car, 200);
    assert_eq!(car.door, DoorState::Closed);
    assert!(!car.floors[2].requested);
    assert!(!car.floors[2].indicator_on);
    // Arrival cue first, doors-closing cue later.
    assert_eq!(announcements[0], b"ikkai.\r".to_vec());
    assert!(announcements.contains(&b"do'aga/shimarima'_su.\r".to_vec()));
}

#[test]
fn call_above_is_served_and_direction_announced() {
    // Scenario: idle at level 1, call at level 3.
    let mut car = make_car();
    assert!(car.request_stop(3));
    let n = tick(&mut car);
    assert_eq!(car.direction, Direction::Up(Some(0)));
    assert_eq!(n.announcement, Some(b"ueni/mairima'_su,\r".to_vec()));
    let mut arrived = false;
    for _ in 0..400 {
        tick(&mut car);
        if car.current_floor_index == 4 && car.door != DoorState::Closed {
            arrived = true;
            break;
        }
    }
    assert!(arrived, "car never reached level 3 with the door moving");
    let _ = run_until_closed(&mut car, 200);
    assert!(!car.floors[4].requested);
    assert!(!car.floors[4].indicator_on);
    // No requests remain: the next closed-door tick goes idle.
    tick(&mut car);
    assert_eq!(car.direction, Direction::Idle);
}

#[test]
fn upward_run_is_exhausted_before_reversing() {
    // Scenario: moving up toward level 5 while level 2, behind the car, is
    // also requested - the car must not reverse early.
    let mut car = make_car();
    assert!(car.request_stop(5));
    tick(&mut car);
    assert_eq!(car.direction, Direction::Up(Some(0)));
    // Travel until the car has passed level 2's index (3).
    for _ in 0..400 {
        tick(&mut car);
        if car.current_floor_index >= 4 {
            break;
        }
    }
    assert!(car.current_floor_index >= 4);
    assert!(car.request_stop(2));
    // Until the level-5 stop is cleared, the car never points down.
    for _ in 0..400 {
        tick(&mut car);
        if !car.floors[6].requested && car.door == DoorState::Closed {
            break;
        }
        assert!(
            !matches!(car.direction, Direction::Down(_)),
            "reversed before exhausting the upward run"
        );
    }
    assert!(!car.floors[6].requested);
    assert_eq!(car.current_floor_index, 6);
    // Now the car reverses and serves level 2.
    let mut served = false;
    for _ in 0..600 {
        tick(&mut car);
        if car.current_floor_index == 3 && !car.floors[3].requested
            && car.door == DoorState::Closed {
            served = true;
            break;
        }
    }
    assert!(served, "level 2 was never serviced after the reversal");
}

#[test]
fn idle_tie_breaks_downward() {
    // Scenario: idle at index 2 with requests at equal distance above
    // (index 4) and below (index 0): the documented tie-break goes down.
    let mut car = make_car();
    assert!(car.request_stop(3));
    assert!(car.request_stop(-2));
    let n = tick(&mut car);
    assert_eq!(car.direction, Direction::Down(Some(0)));
    assert_eq!(n.announcement, Some(b"shitani/mairima'_su,\r".to_vec()));
}

#[test]
fn idle_goes_to_strictly_nearer_side() {
    // Requests at distance 1 above and 2 below: up wins strictly.
    let mut car = make_car();
    assert!(car.request_stop(2));
    assert!(car.request_stop(-2));
    let n = tick(&mut car);
    assert_eq!(car.direction, Direction::Up(Some(0)));
    assert_eq!(n.announcement, Some(b"ueni/mairima'_su,\r".to_vec()));
}

#[test]
fn fresh_call_at_idle_cars_floor_opens_at_once() {
    let mut car = make_car();
    let mut pressed = vec![false; 8];
    pressed[2] = true;
    pressed[5] = true;
    let n = car.advance(&pressed);
    // The capture pass stops at the car's own floor: the door starts
    // opening, and later floors are not yet marked this tick.
    assert_eq!(car.door, DoorState::Opening(0));
    assert!(car.floors[2].requested);
    assert!(car.floors[2].indicator_on);
    assert!(!car.floors[5].requested);
    assert!(n.announcement.is_none());
}

#[test]
fn captured_call_elsewhere_starts_a_run() {
    let mut car = make_car();
    let mut pressed = vec![false; 8];
    pressed[5] = true;
    let n = car.advance(&pressed);
    // Marked, lit, and the same tick's motion phase commits upward.
    assert!(car.floors[5].requested);
    assert!(car.floors[5].indicator_on);
    assert_eq!(car.direction, Direction::Up(Some(0)));
    assert_eq!(n.announcement, Some(b"ueni/mairima'_su,\r".to_vec()));
}

#[test]
fn held_button_does_not_re_mark_a_pending_floor() {
    let mut car = make_car();
    let mut pressed = vec![false; 8];
    pressed[5] = true;
    car.advance(&pressed);
    assert_eq!(car.direction, Direction::Up(Some(0)));
    // Holding the button changes nothing further while the request pends.
    let n = car.advance(&pressed);
    assert!(car.floors[5].requested);
    assert_eq!(car.direction, Direction::Up(Some(2)));
    assert_eq!(n.repaints, 1);
}

#[test]
fn travel_leg_takes_fifty_ticks() {
    let mut car = make_car();
    assert!(car.request_stop(6));
    tick(&mut car);
    assert_eq!(car.direction, Direction::Up(Some(0)));
    for expected in 1..=50u8 {
        tick(&mut car);
        assert_eq!(car.direction, Direction::Up(Some(expected * 2)));
        // Never open mid-transit.
        assert_eq!(car.door, DoorState::Closed);
    }
    // Arrival tick: the car steps onto the next floor and keeps going.
    tick(&mut car);
    assert_eq!(car.current_floor_index, 3);
    assert_eq!(car.direction, Direction::Up(Some(0)));
    assert_eq!(car.door, DoorState::Closed);
}

#[test]
fn arrival_opens_door_and_emits_cue() {
    let mut car = make_car();
    assert!(car.request_stop(2));
    tick(&mut car);
    assert_eq!(car.direction, Direction::Up(Some(0)));
    for _ in 0..50 {
        tick(&mut car);
    }
    assert_eq!(car.direction, Direction::Up(Some(100)));
    let n = tick(&mut car);
    assert_eq!(car.current_floor_index, 3);
    assert_eq!(car.door, DoorState::Opening(0));
    assert_eq!(car.direction, Direction::Up(None));
    assert_eq!(n.repaints, 3);
    assert!(n.announcement.is_none());
    // The arrival cue comes with the first opening step.
    let n = tick(&mut car);
    assert_eq!(car.door, DoorState::Opening(5));
    assert_eq!(n.announcement, Some(b"nikai.\r".to_vec()));
}

#[test]
fn doors_closing_cue_is_emitted() {
    let mut car = make_car();
    car.set_door_open(true);
    for _ in 0..72 {
        tick(&mut car);
    }
    assert_eq!(car.door, DoorState::Closing(0));
    let n = tick(&mut car);
    assert_eq!(car.door, DoorState::Closing(5));
    assert_eq!(n.announcement, Some(b"do'aga/shimarima'_su.\r".to_vec()));
}
