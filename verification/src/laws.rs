//! General properties of the car state machine, stated and proved once.

use vstd::prelude::*;

use crate::elevator::Direction;
use crate::elevator::DoorState;
use crate::model::{
    capture_opens, has_level, index_of_level, inv, levels_sorted, mark_floor, request_stop_model,
    step, ElevatorModel,
};

verus! {

/// The door is closed whenever the car is actively traversing a leg: in any
/// well-formed state, a direction of `Up(Some(p))` or `Down(Some(p))` —
/// in particular mid-span, `0 < p < 100` — implies the door is `Closed`.
/// Since every operation preserves well-formedness, this holds at all ticks.
pub proof fn lemma_door_closed_mid_transit(m: ElevatorModel)
    requires
        inv(m),
    ensures
        m.direction matches Direction::Up(Some(p)) ==> m.door == DoorState::Closed,
        m.direction matches Direction::Down(Some(p)) ==> m.door == DoorState::Closed,
{
}

/// Which door sub-phase a door state is in.  `Closed` is terminal and
/// carries no progress.
pub open spec fn same_door_phase(a: DoorState, b: DoorState) -> bool {
    match (a, b) {
        (DoorState::Opening(_), DoorState::Opening(_)) => true,
        (DoorState::Open(_), DoorState::Open(_)) => true,
        (DoorState::Closing(_), DoorState::Closing(_)) => true,
        (DoorState::Closed, DoorState::Closed) => true,
        _ => false,
    }
}

/// The progress of a door sub-phase; a closed door has none.
pub open spec fn door_progress(d: DoorState) -> int {
    match d {
        DoorState::Opening(p) => p as int,
        DoorState::Open(p) => p as int,
        DoorState::Closing(p) => p as int,
        DoorState::Closed => 0,
    }
}

/// Door sub-phase progress is monotonically non-decreasing within a phase
/// and resets to 0 exactly on a phase transition, under ticking alone: the
/// precondition rules out a fresh call at an idle car's own floor, which
/// restarts the door at `Opening(0)` from any phase (as the manual override
/// may also do).
pub proof fn lemma_door_progress_monotone(m: ElevatorModel, pressed: Seq<bool>)
    requires
        inv(m),
        !capture_opens(m, pressed),
    ensures
        same_door_phase(m.door, step(m, pressed).0.door) ==> door_progress(m.door)
            <= door_progress(step(m, pressed).0.door),
        !same_door_phase(m.door, step(m, pressed).0.door) ==> door_progress(
            step(m, pressed).0.door,
        ) == 0,
{
}

/// `request_stop` is idempotent: with unique floor levels, requesting the
/// same floor twice without an intervening service equals requesting it
/// once.
pub proof fn lemma_request_stop_idempotent(m: ElevatorModel, level: int)
    requires
        levels_sorted(m.floors),
    ensures
        request_stop_model(request_stop_model(m, level), level) == request_stop_model(m, level),
{
    let m1 = request_stop_model(m, level);
    if has_level(m.floors, level) && !m.floors[index_of_level(m.floors, level)].requested {
        let i = index_of_level(m.floors, level);
        assert(0 <= i < m.floors.len() && m.floors[i].level == level);
        assert(m1.floors[i].level == level);
        assert(has_level(m1.floors, level));
        let j = index_of_level(m1.floors, level);
        assert(0 <= j < m1.floors.len() && m1.floors[j].level == level);
        if i != j {
            assert(m.floors[j].level == m1.floors[j].level);
            assert(false);
        }
        assert(m1.floors[j].requested);
    } else {
        assert(m1 == m);
    }
}

/// Servicing a stop clears it: when the door finishes closing, the current
/// floor's request — pending at the start of the full door cycle that just
/// ended — is cleared and its indicator is off, under ticking alone (no
/// fresh call at an idle car's own floor).
pub proof fn lemma_service_clears_request(m: ElevatorModel, pressed: Seq<bool>)
    requires
        inv(m),
        m.door == DoorState::Closing(100),
        !capture_opens(m, pressed),
    ensures
        step(m, pressed).0.door == DoorState::Closed,
        !step(m, pressed).0.floors[m.current_floor_index].requested,
        !step(m, pressed).0.floors[m.current_floor_index].indicator_on,
{
}

/// An idle car with no pending request anywhere and no call input stays
/// exactly as it is, repainting nothing and announcing nothing; by
/// induction it stays idle with the door closed forever.
pub proof fn lemma_idle_without_requests_stable(m: ElevatorModel, pressed: Seq<bool>)
    requires
        inv(m),
        m.direction == Direction::Idle,
        m.door == DoorState::Closed,
        forall|j: int| 0 <= j < m.floors.len() ==> !(#[trigger] m.floors[j].requested),
        forall|j: int| 0 <= j < pressed.len() ==> !(#[trigger] pressed[j]),
        pressed.len() == m.floors.len(),
    ensures
        step(m, pressed).0 == m,
        step(m, pressed).1 == 0,
        step(m, pressed).2 is None,
{
    assert(step(m, pressed).0 =~= m);
}

} // verus!
