//! Mathematical model of the car state machine.
//!
//! Every executable operation on [`crate::elevator::Elevator`] is specified
//! against this model: the exec state is abstracted by a view into
//! [`ElevatorModel`], and one logical tick is the pure function [`step`].

use vstd::prelude::*;
use vstd::string::StringSliceAdditionalSpecFns;

use crate::elevator::Direction;
use crate::elevator::DoorState;

verus! {

/// Number of floors the car serves; the floor table has exactly this size.
pub const NUM_FLOORS: usize = 8;

/// Progress added to an opening or closing door on each tick.
pub const DOOR_MOVE_STEP: u8 = 5;

/// Progress added to a fully open (dwelling) door on each tick.
pub const DOOR_DWELL_STEP: u8 = 2;

/// Progress added to an in-flight travel leg on each tick.
pub const TRAVEL_STEP: u8 = 2;

/// Abstract value of one floor record.
#[verifier::ext_equal]
pub struct FloorModel {
    /// Signed storey number; unique and increasing with the table index.
    pub level: int,
    /// Display label.
    pub label: Seq<char>,
    /// Voice-synthesizer command played when the car arrives here.
    pub announcement_cue: Seq<u8>,
    /// A pending call to stop at this floor.
    pub requested: bool,
    /// Whether the floor's call indicator is lit.
    pub indicator_on: bool,
}

/// Abstract value of the whole car.
#[verifier::ext_equal]
pub struct ElevatorModel {
    /// Index into `floors` of the floor the car is at (or departing from).
    pub current_floor_index: int,
    pub direction: Direction,
    pub door: DoorState,
    pub floors: Seq<FloorModel>,
}

/// What one call of `advance` hands back to the driver, abstractly:
/// how often the repaint sink fires and which announcement (if any) is emitted.
pub type TickModel = (ElevatorModel, int, Option<Seq<u8>>);

// ---------------------------------------------------------------------------
// Announcement cues
// ---------------------------------------------------------------------------

/// Spoken when the car commits to travelling upward.
pub open spec fn going_up_cue() -> Seq<u8> {
    "ueni/mairima'_su,\r".spec_bytes()
}

/// Spoken when the car commits to travelling downward.
pub open spec fn going_down_cue() -> Seq<u8> {
    "shitani/mairima'_su,\r".spec_bytes()
}

/// Spoken when the door starts closing.
pub open spec fn doors_closing_cue() -> Seq<u8> {
    "do'aga/shimarima'_su.\r".spec_bytes()
}

// ---------------------------------------------------------------------------
// Well-formedness
// ---------------------------------------------------------------------------

/// Door progress percentages stay in range and on the tick grid.
pub open spec fn door_wf(door: DoorState) -> bool {
    match door {
        DoorState::Opening(p) => p <= 100 && p % DOOR_MOVE_STEP == 0,
        DoorState::Open(p) => p <= 100 && p % DOOR_DWELL_STEP == 0,
        DoorState::Closing(p) => p <= 100 && p % DOOR_MOVE_STEP == 0,
        DoorState::Closed => true,
    }
}

/// Some floor strictly above the current one has a pending request.
pub open spec fn requested_above(m: ElevatorModel) -> bool {
    exists|j: int|
        m.current_floor_index < j < m.floors.len() && #[trigger] m.floors[j].requested
}

/// Some floor strictly below the current one has a pending request.
pub open spec fn requested_below(m: ElevatorModel) -> bool {
    exists|j: int| 0 <= j < m.current_floor_index && #[trigger] m.floors[j].requested
}

/// An in-flight travel leg is well formed: progress on the tick grid, the
/// door closed mid-transit, and a pending request in the travel direction
/// (so the leg never runs off the end of the table).
pub open spec fn direction_wf(m: ElevatorModel) -> bool {
    match m.direction {
        Direction::Up(progress) => match progress {
            Some(p) => p <= 100 && p % TRAVEL_STEP == 0 && m.door == DoorState::Closed
                && requested_above(m),
            None => true,
        },
        Direction::Down(progress) => match progress {
            Some(p) => p <= 100 && p % TRAVEL_STEP == 0 && m.door == DoorState::Closed
                && requested_below(m),
            None => true,
        },
        Direction::Idle => true,
    }
}

/// Floor levels are strictly increasing with the table index.
pub open spec fn levels_sorted(floors: Seq<FloorModel>) -> bool {
    forall|i: int, j: int|
        0 <= i < j < floors.len() ==> #[trigger] floors[i].level < #[trigger] floors[j].level
}

/// Each floor's indicator is lit exactly while its request is pending.
pub open spec fn indicators_follow_requests(floors: Seq<FloorModel>) -> bool {
    forall|i: int|
        0 <= i < floors.len() ==> #[trigger] floors[i].indicator_on == floors[i].requested
}

/// Invariant of the car: established by construction and preserved by every
/// operation.
pub open spec fn inv(m: ElevatorModel) -> bool {
    &&& m.floors.len() == NUM_FLOORS
    &&& 0 <= m.current_floor_index < m.floors.len()
    &&& levels_sorted(m.floors)
    &&& indicators_follow_requests(m.floors)
    &&& door_wf(m.door)
    &&& direction_wf(m)
}

// ---------------------------------------------------------------------------
// Helpers on the floor table
// ---------------------------------------------------------------------------

/// Some floor in the table has this level.
pub open spec fn has_level(floors: Seq<FloorModel>, level: int) -> bool {
    exists|i: int| 0 <= i < floors.len() && #[trigger] floors[i].level == level
}

/// The index of the floor with this level (unique when levels are sorted).
pub open spec fn index_of_level(floors: Seq<FloorModel>, level: int) -> int {
    choose|i: int| 0 <= i < floors.len() && #[trigger] floors[i].level == level
}

/// A floor whose call was just captured: request pending, indicator lit.
pub open spec fn mark_floor(f: FloorModel) -> FloorModel {
    FloorModel { requested: true, indicator_on: true, ..f }
}

/// A floor whose stop was just serviced: request cleared, indicator off.
pub open spec fn clear_floor(f: FloorModel) -> FloorModel {
    FloorModel { requested: false, indicator_on: false, ..f }
}

/// What `request_stop` does to the abstract state: marks the floor at
/// `level` as requested with its indicator lit, or leaves the state
/// unchanged when no such floor exists or it is already requested.
pub open spec fn request_stop_model(m: ElevatorModel, level: int) -> ElevatorModel {
    if has_level(m.floors, level) && !m.floors[index_of_level(m.floors, level)].requested {
        ElevatorModel {
            floors: m.floors.update(
                index_of_level(m.floors, level),
                mark_floor(m.floors[index_of_level(m.floors, level)]),
            ),
            ..m
        }
    } else {
        m
    }
}

/// The smallest index `k >= j` with a pending request, or `floors.len()`.
pub open spec fn nearest_above(floors: Seq<FloorModel>, j: int) -> int
    decreases floors.len() - j,
{
    if j < 0 || j >= floors.len() {
        floors.len() as int
    } else if floors[j].requested {
        j
    } else {
        nearest_above(floors, j + 1)
    }
}

/// The largest index `k <= j` with a pending request, or `-1`.
pub open spec fn nearest_below(floors: Seq<FloorModel>, j: int) -> int
    decreases j + 1,
{
    if j < 0 {
        -1
    } else if floors[j].requested {
        j
    } else {
        nearest_below(floors, j - 1)
    }
}

/// The car is not traversing a leg: it may pick (or re-evaluate) a direction.
pub open spec fn direction_uncommitted(d: Direction) -> bool {
    match d {
        Direction::Up(progress) => progress is None,
        Direction::Down(progress) => progress is None,
        Direction::Idle => true,
    }
}

/// [`nearest_above`] finds the first requested floor at or above `j`.
pub proof fn lemma_nearest_above(floors: Seq<FloorModel>, j: int)
    requires
        0 <= j <= floors.len(),
    ensures
        j <= nearest_above(floors, j) <= floors.len(),
        nearest_above(floors, j) < floors.len() ==> floors[nearest_above(floors, j)].requested,
        forall|k: int| j <= k < nearest_above(floors, j) ==> !(#[trigger] floors[k].requested),
    decreases floors.len() - j,
{
    if j < floors.len() && !floors[j].requested {
        lemma_nearest_above(floors, j + 1);
    }
}

/// [`nearest_below`] finds the first requested floor at or below `j`.
pub proof fn lemma_nearest_below(floors: Seq<FloorModel>, j: int)
    requires
        -1 <= j < floors.len(),
    ensures
        -1 <= nearest_below(floors, j) <= j,
        nearest_below(floors, j) >= 0 ==> floors[nearest_below(floors, j)].requested,
        forall|k: int| nearest_below(floors, j) < k <= j ==> !(#[trigger] floors[k].requested),
    decreases j + 1,
{
    if j >= 0 && !floors[j].requested {
        lemma_nearest_below(floors, j - 1);
    }
}

// ---------------------------------------------------------------------------
// One logical tick
// ---------------------------------------------------------------------------

/// Floors below index `n` whose call input is asserted become requested with
/// their indicator lit; all other floors are unchanged.
pub open spec fn marked_floors(floors: Seq<FloorModel>, pressed: Seq<bool>, n: int) -> Seq<
    FloorModel,
> {
    Seq::new(
        floors.len(),
        |j: int|
            if j < n && pressed[j] && !floors[j].requested {
                mark_floor(floors[j])
            } else {
                floors[j]
            },
    )
}

/// The call capture pass stops the tick early: a fresh call at the exact
/// floor an idle car is sitting at makes the door start opening at once.
pub open spec fn capture_opens(m: ElevatorModel, pressed: Seq<bool>) -> bool {
    &&& m.direction == Direction::Idle
    &&& pressed[m.current_floor_index]
    &&& !m.floors[m.current_floor_index].requested
}

/// Door-phase advance, taken while the door is not closed.
pub open spec fn door_step(m: ElevatorModel) -> TickModel {
    match m.door {
        DoorState::Opening(p) => if p == 100 {
            (ElevatorModel { door: DoorState::Open(0), ..m }, 1int, None)
        } else {
            (
                ElevatorModel { door: DoorState::Opening((p + DOOR_MOVE_STEP) as u8), ..m },
                1int,
                if p == 0 {
                    Some(m.floors[m.current_floor_index].announcement_cue)
                } else {
                    None
                },
            )
        },
        DoorState::Open(p) => if p == 100 {
            (ElevatorModel { door: DoorState::Closing(0), ..m }, 1int, None)
        } else {
            (
                ElevatorModel { door: DoorState::Open((p + DOOR_DWELL_STEP) as u8), ..m },
                1int,
                None,
            )
        },
        DoorState::Closing(p) => if p == 100 {
            (
                ElevatorModel {
                    door: DoorState::Closed,
                    floors: if m.floors[m.current_floor_index].requested {
                        m.floors.update(
                            m.current_floor_index,
                            clear_floor(m.floors[m.current_floor_index]),
                        )
                    } else {
                        m.floors
                    },
                    ..m
                },
                1int,
                None,
            )
        } else {
            (
                ElevatorModel { door: DoorState::Closing((p + DOOR_MOVE_STEP) as u8), ..m },
                1int,
                if p == 0 {
                    Some(doors_closing_cue())
                } else {
                    None
                },
            )
        },
        DoorState::Closed => (m, 0int, None),
    }
}

/// The direction the LOOK dispatch commits to when no request is pending at
/// the current floor: keep going where requests remain, else reverse, else
/// idle; an idle car goes to the nearer side, ties resolving downward.
pub open spec fn chosen_direction(m: ElevatorModel) -> Direction {
    let above = requested_above(m);
    let below = requested_below(m);
    match m.direction {
        Direction::Up(_) => if above {
            Direction::Up(Some(0))
        } else if below {
            Direction::Down(Some(0))
        } else {
            Direction::Idle
        },
        Direction::Down(_) => if below {
            Direction::Down(Some(0))
        } else if above {
            Direction::Up(Some(0))
        } else {
            Direction::Idle
        },
        Direction::Idle => if above && below {
            if nearest_above(m.floors, m.current_floor_index + 1) - m.current_floor_index
                < m.current_floor_index - nearest_below(m.floors, m.current_floor_index - 1) {
                Direction::Up(Some(0))
            } else {
                Direction::Down(Some(0))
            }
        } else if above {
            Direction::Up(Some(0))
        } else if below {
            Direction::Down(Some(0))
        } else {
            Direction::Idle
        },
    }
}

/// Floor selection, invoked with the door closed and no committed leg in
/// flight.  A pending request at the current floor opens the door in place;
/// otherwise the car commits to [`chosen_direction`], announcing it.
pub open spec fn select_direction(m: ElevatorModel) -> TickModel {
    if m.floors[m.current_floor_index].requested {
        (
            ElevatorModel { door: DoorState::Opening(0), ..m },
            if m.door == DoorState::Opening(0) {
                0int
            } else {
                1int
            },
            None,
        )
    } else {
        let dir = chosen_direction(m);
        (
            ElevatorModel { direction: dir, ..m },
            if dir == m.direction {
                0int
            } else {
                1int
            },
            match dir {
                Direction::Up(_) => Some(going_up_cue()),
                Direction::Down(_) => Some(going_down_cue()),
                Direction::Idle => None,
            },
        )
    }
}

/// Arrival at the end of an upward leg: step onto the next floor; if it is
/// requested, open the door and commit onward (or reverse / idle at the top);
/// if not, start the next upward leg.
pub open spec fn arrive_up(m: ElevatorModel) -> TickModel {
    let c = m.current_floor_index + 1;
    if m.floors[c].requested {
        let dir = if c == m.floors.len() - 1 {
            if exists|j: int| 0 <= j < c && #[trigger] m.floors[j].requested {
                Direction::Down(None)
            } else {
                Direction::Idle
            }
        } else {
            Direction::Up(None)
        };
        (
            ElevatorModel {
                current_floor_index: c,
                door: DoorState::Opening(0),
                direction: dir,
                ..m
            },
            3int,
            None,
        )
    } else {
        (
            ElevatorModel { current_floor_index: c, direction: Direction::Up(Some(0)), ..m },
            2int,
            None,
        )
    }
}

/// Arrival at the end of a downward leg, symmetric to [`arrive_up`].
pub open spec fn arrive_down(m: ElevatorModel) -> TickModel {
    let c = m.current_floor_index - 1;
    if m.floors[c].requested {
        let dir = if c == 0 {
            if exists|j: int| c < j < m.floors.len() && #[trigger] m.floors[j].requested {
                Direction::Up(None)
            } else {
                Direction::Idle
            }
        } else {
            Direction::Down(None)
        };
        (
            ElevatorModel {
                current_floor_index: c,
                door: DoorState::Opening(0),
                direction: dir,
                ..m
            },
            3int,
            None,
        )
    } else {
        (
            ElevatorModel { current_floor_index: c, direction: Direction::Down(Some(0)), ..m },
            2int,
            None,
        )
    }
}

/// Motion-phase advance, taken while the door is closed.
pub open spec fn motion_step(m: ElevatorModel) -> TickModel {
    match m.direction {
        Direction::Up(progress) => match progress {
            Some(p) => if p == 100 {
                arrive_up(m)
            } else {
                (
                    ElevatorModel { direction: Direction::Up(Some((p + TRAVEL_STEP) as u8)), ..m },
                    1int,
                    None,
                )
            },
            None => select_direction(m),
        },
        Direction::Down(progress) => match progress {
            Some(p) => if p == 100 {
                arrive_down(m)
            } else {
                (
                    ElevatorModel {
                        direction: Direction::Down(Some((p + TRAVEL_STEP) as u8)),
                        ..m
                    },
                    1int,
                    None,
                )
            },
            None => select_direction(m),
        },
        Direction::Idle => select_direction(m),
    }
}

/// One logical tick: capture fresh calls, then advance the door if it is
/// moving, else advance the motion phase.
pub open spec fn step(m: ElevatorModel, pressed: Seq<bool>) -> TickModel {
    if capture_opens(m, pressed) {
        (
            ElevatorModel {
                floors: marked_floors(m.floors, pressed, m.current_floor_index + 1),
                door: DoorState::Opening(0),
                ..m
            },
            if m.door == DoorState::Opening(0) {
                0int
            } else {
                1int
            },
            None,
        )
    } else {
        let m1 = ElevatorModel {
            floors: marked_floors(m.floors, pressed, m.floors.len() as int),
            ..m
        };
        if m1.door == DoorState::Closed {
            motion_step(m1)
        } else {
            door_step(m1)
        }
    }
}

// ---------------------------------------------------------------------------
// The tick preserves the invariant
// ---------------------------------------------------------------------------

/// Capturing calls preserves the invariant: marking keeps levels, keeps the
/// indicators in step with the requests, and never clears a request.
pub proof fn lemma_marked_floors_inv(m: ElevatorModel, pressed: Seq<bool>, n: int)
    requires
        inv(m),
    ensures
        inv(ElevatorModel { floors: marked_floors(m.floors, pressed, n), ..m }),
        forall|j: int|
            0 <= j < m.floors.len() && #[trigger] m.floors[j].requested ==> marked_floors(
                m.floors,
                pressed,
                n,
            )[j].requested,
{
    let m2 = ElevatorModel { floors: marked_floors(m.floors, pressed, n), ..m };
    assert(levels_sorted(m2.floors));
    assert(indicators_follow_requests(m2.floors));
    match m.direction {
        Direction::Up(progress) => {
            if progress is Some {
                let j = choose|j: int|
                    m.current_floor_index < j < m.floors.len() && #[trigger] m.floors[j].requested;
                assert(m2.floors[j].requested);
            }
        },
        Direction::Down(progress) => {
            if progress is Some {
                let j = choose|j: int|
                    0 <= j < m.current_floor_index && #[trigger] m.floors[j].requested;
                assert(m2.floors[j].requested);
            }
        },
        Direction::Idle => {},
    }
}

/// The door phase of a tick preserves the invariant.
pub proof fn lemma_door_step_inv(m: ElevatorModel)
    requires
        inv(m),
        m.door != DoorState::Closed,
    ensures
        inv(door_step(m).0),
{
    let m2 = door_step(m).0;
    assert(direction_uncommitted(m.direction));
    if m.door matches DoorState::Closing(p) && p == 100 {
        assert(levels_sorted(m2.floors));
        assert(indicators_follow_requests(m2.floors));
    }
}

/// The motion phase of a tick preserves the invariant.
pub proof fn lemma_motion_step_inv(m: ElevatorModel)
    requires
        inv(m),
        m.door == DoorState::Closed,
    ensures
        inv(motion_step(m).0),
{
    let m2 = motion_step(m).0;
    match m.direction {
        Direction::Up(progress) => match progress {
            Some(p) => {
                let j = choose|j: int|
                    m.current_floor_index < j < m.floors.len() && #[trigger] m.floors[j].requested;
                if p == 100 {
                    let c = m.current_floor_index + 1;
                    assert(c < m.floors.len());
                    if !m.floors[c].requested {
                        assert(j != c);
                        assert(m2.floors[j].requested && c < j);
                    }
                } else {
                    assert(m2.floors[j].requested);
                    assert(requested_above(m2));
                }
            },
            None => lemma_select_direction_inv(m),
        },
        Direction::Down(progress) => match progress {
            Some(p) => {
                let j = choose|j: int|
                    0 <= j < m.current_floor_index && #[trigger] m.floors[j].requested;
                if p == 100 {
                    let c = m.current_floor_index - 1;
                    assert(c >= 0);
                    if !m.floors[c].requested {
                        assert(j != c);
                        assert(m2.floors[j].requested && j < c);
                    }
                } else {
                    assert(m2.floors[j].requested);
                    assert(requested_below(m2));
                }
            },
            None => lemma_select_direction_inv(m),
        },
        Direction::Idle => lemma_select_direction_inv(m),
    }
}

/// Floor selection preserves the invariant.
pub proof fn lemma_select_direction_inv(m: ElevatorModel)
    requires
        inv(m),
        m.door == DoorState::Closed,
        direction_uncommitted(m.direction),
    ensures
        inv(select_direction(m).0),
{
    let m2 = select_direction(m).0;
    if !m.floors[m.current_floor_index].requested {
        let dir = chosen_direction(m);
        if dir matches Direction::Up(op) {
            assert(requested_above(m));
            let j = choose|j: int|
                m.current_floor_index < j < m.floors.len() && #[trigger] m.floors[j].requested;
            assert(m2.floors[j].requested);
            assert(requested_above(m2));
        }
        if dir matches Direction::Down(op) {
            assert(requested_below(m));
            let j = choose|j: int|
                0 <= j < m.current_floor_index && #[trigger] m.floors[j].requested;
            assert(m2.floors[j].requested);
            assert(requested_below(m2));
        }
    }
}

/// One tick from a well-formed state ends in a well-formed state.
pub proof fn lemma_step_preserves_inv(m: ElevatorModel, pressed: Seq<bool>)
    requires
        inv(m),
    ensures
        inv(step(m, pressed).0),
{
    if capture_opens(m, pressed) {
        lemma_marked_floors_inv(m, pressed, m.current_floor_index + 1);
    } else {
        lemma_marked_floors_inv(m, pressed, m.floors.len() as int);
        let m1 = ElevatorModel {
            floors: marked_floors(m.floors, pressed, m.floors.len() as int),
            ..m
        };
        if m1.door == DoorState::Closed {
            lemma_motion_step_inv(m1);
        } else {
            lemma_door_step_inv(m1);
        }
    }
}

} // verus!
