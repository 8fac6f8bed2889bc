//! The car state machine: the executable elevator and its contracts.

use vstd::prelude::*;
use vstd::string::StrSliceExecFns;

use crate::model::{
    capture_opens, chosen_direction, clear_floor, direction_uncommitted, has_level,
    index_of_level, indicators_follow_requests, inv, lemma_marked_floors_inv,
    lemma_nearest_above, lemma_nearest_below, lemma_select_direction_inv,
    lemma_step_preserves_inv, levels_sorted, mark_floor, marked_floors, nearest_above,
    request_stop_model, DOOR_DWELL_STEP, DOOR_MOVE_STEP, TRAVEL_STEP,
    nearest_below, requested_above, requested_below, select_direction, step, ElevatorModel,
    FloorModel, NUM_FLOORS,
};

verus! {

/// Travel direction of the car.
///
/// `Up(None)` / `Down(None)` mean the car is committed to that direction but
/// not yet traversing a leg (it re-evaluates at the next closed-door tick);
/// `Up(Some(p))` / `Down(Some(p))` mean it is `p` percent through an
/// inter-floor leg.  `Idle` carries no data.
#[derive(Clone, Copy, PartialEq, Eq, Structural, Debug)]
pub enum Direction {
    Up(Option<u8>),
    Down(Option<u8>),
    Idle,
}

/// Door state, each moving sub-phase `p` percent complete.
#[derive(Clone, Copy, PartialEq, Eq, Structural, Debug)]
pub enum DoorState {
    Opening(u8),
    Open(u8),
    Closing(u8),
    Closed,
}

/// One floor record of the car's table.
pub struct Floor {
    /// Signed storey number; unique, increasing with the table index.
    pub level: i8,
    /// Display label.
    pub label: String,
    /// Voice-synthesizer command played when the car arrives here.
    pub announcement_cue: Vec<u8>,
    /// A pending call to stop at this floor.
    pub requested: bool,
    /// Whether this floor's call indicator is lit.  The driver mirrors this
    /// onto the physical indicator after every operation.
    pub indicator_on: bool,
}

/// Configuration of one floor, handed to [`Elevator::new`].
pub struct FloorConfig {
    pub level: i8,
    pub label: String,
    pub announcement_cue: Vec<u8>,
}

/// What one tick hands back to the driver: how often the repaint sink fires
/// (the externally visible state changed that many times) and the
/// announcement to emit, if any.
pub struct Notifications {
    pub repaints: usize,
    pub announcement: Option<Vec<u8>>,
}

/// The car: current position, direction, door and the owned floor table.
pub struct Elevator {
    pub current_floor_index: usize,
    pub direction: Direction,
    pub door: DoorState,
    pub floors: Vec<Floor>,
}

impl View for Floor {
    type V = FloorModel;

    open spec fn view(&self) -> FloorModel {
        FloorModel {
            level: self.level as int,
            label: self.label@,
            announcement_cue: self.announcement_cue@,
            requested: self.requested,
            indicator_on: self.indicator_on,
        }
    }
}

impl DeepView for Floor {
    type V = FloorModel;

    open spec fn deep_view(&self) -> FloorModel {
        self.view()
    }
}

impl View for FloorConfig {
    type V = FloorModel;

    /// A configured floor starts with no pending request and its indicator off.
    open spec fn view(&self) -> FloorModel {
        FloorModel {
            level: self.level as int,
            label: self.label@,
            announcement_cue: self.announcement_cue@,
            requested: false,
            indicator_on: false,
        }
    }
}

impl DeepView for FloorConfig {
    type V = FloorModel;

    open spec fn deep_view(&self) -> FloorModel {
        self.view()
    }
}

impl View for Elevator {
    type V = ElevatorModel;

    open spec fn view(&self) -> ElevatorModel {
        ElevatorModel {
            current_floor_index: self.current_floor_index as int,
            direction: self.direction,
            door: self.door,
            floors: self.floors.deep_view(),
        }
    }
}

impl Elevator {
    /// The car's invariant, stated on its abstract value.
    pub open spec fn wf(&self) -> bool {
        inv(self@)
    }

    /// Builds the car from its fixed floor configuration.  The table must be
    /// full-sized, sorted by level, and contain the ground floor (level 1),
    /// where the car starts: idle, door closed, no request pending.
    pub fn new(configs: Vec<FloorConfig>) -> (car: Elevator)
        requires
            configs@.len() == NUM_FLOORS,
            levels_sorted(configs.deep_view()),
            has_level(configs.deep_view(), 1),
        ensures
            car.wf(),
            car@.floors == configs.deep_view(),
            car@.direction == Direction::Idle,
            car@.door == DoorState::Closed,
            car@.current_floor_index == index_of_level(configs.deep_view(), 1),
    {
        let mut configs = configs;
        let mut floors: Vec<Floor> = Vec::new();
        let ghost all = configs.deep_view();
        while configs.len() > 0
            invariant
                all.len() == NUM_FLOORS,
                floors@.len() + configs@.len() == NUM_FLOORS,
                forall|k: int|
                    0 <= k < floors@.len() ==> #[trigger] floors.deep_view()[k] == all[k],
                forall|k: int|
                    0 <= k < configs@.len() ==> #[trigger] configs.deep_view()[k] == all[floors@.len()
                        + k],
            decreases configs@.len(),
        {
            let ghost fprev = floors.deep_view();
            let ghost cprev = configs.deep_view();
            let c = configs.remove(0);
            proof {
                assert(c.deep_view() == cprev[0]);
                assert(forall|k: int|
                    0 <= k < configs@.len() ==> #[trigger] configs.deep_view()[k] == cprev[k + 1]);
            }
            floors.push(
                Floor {
                    level: c.level,
                    label: c.label,
                    announcement_cue: c.announcement_cue,
                    requested: false,
                    indicator_on: false,
                },
            );
            proof {
                assert(forall|k: int|
                    0 <= k < fprev.len() ==> #[trigger] floors.deep_view()[k] == fprev[k]);
                assert(floors.deep_view()[fprev.len() as int] == all[fprev.len() as int]);
            }
        }
        proof {
            assert(floors.deep_view() =~= all);
        }
        let index = Self::position_of_level(&floors, 1);
        let car = Elevator {
            current_floor_index: index,
            direction: Direction::Idle,
            door: DoorState::Closed,
            floors,
        };
        proof {
            lemma_index_of_level_unique(car@.floors, 1, index as int);
        }
        car
    }

    /// The table index of the floor with this level; the level must exist.
    fn position_of_level(floors: &Vec<Floor>, level: i8) -> (index: usize)
        requires
            has_level(floors.deep_view(), level as int),
        ensures
            index < floors.deep_view().len(),
            floors.deep_view()[index as int].level == level as int,
    {
        let ghost fs = floors.deep_view();
        let mut i: usize = 0;
        while i < floors.len()
            invariant
                has_level(fs, level as int),
                fs == floors.deep_view(),
                i <= fs.len(),
                forall|k: int| 0 <= k < i ==> #[trigger] fs[k].level != level as int,
            decreases floors@.len() - i,
        {
            if floors[i].level == level {
                return i;
            }
            i += 1;
        }
        proof {
            assert(forall|k: int|
                0 <= k < fs.len() ==> #[trigger] fs[k].level != level as int);
            assert(false);
        }
        0
    }

    /// The table index of the floor with this level; asking for a level the
    /// table does not hold is a wiring fault, ruled out by the precondition.
    pub fn floor_to_index(&self, floor: i8) -> (index: usize)
        requires
            self.wf(),
            has_level(self@.floors, floor as int),
        ensures
            index < self@.floors.len(),
            self@.floors[index as int].level == floor as int,
            index == index_of_level(self@.floors, floor as int),
    {
        let index = Self::position_of_level(&self.floors, floor);
        proof {
            lemma_index_of_level_unique(self@.floors, floor as int, index as int);
        }
        index
    }

    /// How far the door is currently open, as a percentage; the renderer
    /// draws the door leaves from this single value.
    pub fn door_openness(&self) -> (r: u8)
        requires
            self.wf(),
        ensures
            r as int == door_openness_of(self@.door),
    {
        match self.door {
            DoorState::Opening(progress) => progress,
            DoorState::Open(_) => 100,
            DoorState::Closing(progress) => 100 - progress,
            DoorState::Closed => 0,
        }
    }

    /// The level of the floor at this table index.
    pub fn index_to_floor(&self, index: usize) -> (floor: i8)
        requires
            self.wf(),
            index < self@.floors.len(),
        ensures
            floor as int == self@.floors[index as int].level,
    {
        self.floors[index].level
    }

    /// Sets the direction, reporting whether the externally visible state
    /// changed (the repaint sink fires exactly when it did).
    fn set_direction(&mut self, direction: Direction) -> (changed: bool)
        ensures
            final(self)@ == (ElevatorModel { direction, ..old(self)@ }),
            changed == (old(self)@.direction != direction),
    {
        if self.direction == direction {
            return false;
        }
        self.direction = direction;
        true
    }

    /// Sets the door state, reporting whether the externally visible state
    /// changed (the repaint sink fires exactly when it did).
    fn set_door(&mut self, door: DoorState) -> (changed: bool)
        ensures
            final(self)@ == (ElevatorModel { door, ..old(self)@ }),
            changed == (old(self)@.door != door),
    {
        if self.door == door {
            return false;
        }
        self.door = door;
        true
    }

    /// Sets the current floor index, reporting whether the externally visible
    /// state changed (the repaint sink fires exactly when it did).
    fn set_current_floor_index(&mut self, index: usize) -> (changed: bool)
        ensures
            final(self)@ == (ElevatorModel {
                current_floor_index: index as int,
                ..old(self)@
            }),
            changed == (old(self)@.current_floor_index != index as int),
    {
        if self.current_floor_index == index {
            return false;
        }
        self.current_floor_index = index;
        true
    }

    /// Marks the floor at `level` as requested and lights its indicator.
    /// Returns whether the indicator was newly lit: `false` when the floor is
    /// already requested or no floor has this level (a silently ignored usage
    /// error).
    pub fn request_stop(&mut self, level: i8) -> (lit: bool)
        requires
            old(self).wf(),
        ensures
            final(self).wf(),
            lit == (has_level(old(self)@.floors, level as int)
                && !old(self)@.floors[index_of_level(old(self)@.floors, level as int)].requested),
            final(self)@ == request_stop_model(old(self)@, level as int),
    {
        let mut i: usize = 0;
        while i < self.floors.len()
            invariant
                self@ == old(self)@,
                inv(old(self)@),
                i <= old(self)@.floors.len(),
                forall|k: int|
                    0 <= k < i ==> #[trigger] old(self)@.floors[k].level != level as int,
            decreases self.floors@.len() - i,
        {
            let ghost m0 = old(self)@;
            if self.floors[i].level == level {
                proof {
                    assert(m0.floors[i as int] == self.floors@[i as int].deep_view());
                    assert(m0.floors[i as int].level == level as int);
                    assert(has_level(m0.floors, level as int));
                    lemma_index_of_level_unique(m0.floors, level as int, i as int);
                }
                if self.floors[i].requested {
                    return false;
                }
                self.floors[i].requested = true;
                self.floors[i].indicator_on = true;
                proof {
                    assert(self@.floors =~= m0.floors.update(
                        i as int,
                        mark_floor(m0.floors[i as int]),
                    ));
                    lemma_mark_preserves_inv(m0, i as int);
                }
                return true;
            }
            i += 1;
        }
        proof {
            assert(!has_level(old(self)@.floors, level as int));
        }
        false
    }

    /// The lowest requested floor with index in `[lo, hi)`, if any.
    fn find_requested_in(&self, lo: usize, hi: usize) -> (r: Option<usize>)
        requires
            hi <= self@.floors.len(),
        ensures
            match r {
                Some(k) => lo <= k < hi && self@.floors[k as int].requested && forall|j: int|
                    lo <= j < k ==> !(#[trigger] self@.floors[j].requested),
                None => forall|j: int| lo <= j < hi ==> !(#[trigger] self@.floors[j].requested),
            },
    {
        let mut i: usize = lo;
        while i < hi
            invariant
                hi <= self@.floors.len(),
                lo <= i,
                forall|j: int| lo <= j < i ==> !(#[trigger] self@.floors[j].requested),
            decreases hi - i,
        {
            if self.floors[i].requested {
                proof {
                    assert(self@.floors[i as int] == self.floors@[i as int].deep_view());
                }
                return Some(i);
            }
            proof {
                assert(self@.floors[i as int] == self.floors@[i as int].deep_view());
            }
            i += 1;
        }
        None
    }

    /// The highest requested floor with index strictly below `hi`, if any.
    fn rfind_requested_below(&self, hi: usize) -> (r: Option<usize>)
        requires
            hi <= self@.floors.len(),
        ensures
            match r {
                Some(k) => k < hi && self@.floors[k as int].requested && forall|j: int|
                    k < j < hi ==> !(#[trigger] self@.floors[j].requested),
                None => forall|j: int| 0 <= j < hi ==> !(#[trigger] self@.floors[j].requested),
            },
    {
        let mut i: usize = hi;
        while i > 0
            invariant
                hi <= self@.floors.len(),
                i <= hi,
                forall|j: int| i <= j < hi ==> !(#[trigger] self@.floors[j].requested),
            decreases i,
        {
            i -= 1;
            if self.floors[i].requested {
                proof {
                    assert(self@.floors[i as int] == self.floors@[i as int].deep_view());
                }
                return Some(i);
            }
            proof {
                assert(self@.floors[i as int] == self.floors@[i as int].deep_view());
            }
        }
        None
    }

    /// Floor selection (LOOK dispatch), run with the door closed and no leg
    /// in flight.  A request at the current floor opens the door in place;
    /// otherwise the car keeps its direction while requests remain there,
    /// reverses if only the other side has requests, and goes idle if none
    /// are pending; an idle car picks the side whose nearest request is
    /// strictly closer, ties resolving downward.  Committing to a direction
    /// emits the matching announcement.
    fn goto_next_floor(&mut self) -> (r: Notifications)
        requires
            old(self).wf(),
            old(self)@.door == DoorState::Closed,
            direction_uncommitted(old(self)@.direction),
        ensures
            final(self).wf(),
            ({
                let (m2, repaints, announcement) = select_direction(old(self)@);
                &&& final(self)@ == m2
                &&& r.repaints == repaints
                &&& r.announcement.deep_view() == announcement
            }),
    {
        proof {
            lemma_select_direction_inv(old(self)@);
        }
        let index = self.current_floor_index;
        if self.floors[index].requested {
            proof {
                assert(self@.floors[index as int] == self.floors@[index as int].deep_view());
            }
            self.set_door(DoorState::Opening(0));
            return Notifications { repaints: 1, announcement: None };
        }
        proof {
            assert(self@.floors[index as int] == self.floors@[index as int].deep_view());
        }
        let above = self.find_requested_in(index + 1, NUM_FLOORS);
        let below = self.rfind_requested_below(index);
        proof {
            match above {
                Some(k) => assert(requested_above(self@)),
                None => assert(!requested_above(self@)),
            }
            match below {
                Some(k) => assert(requested_below(self@)),
                None => assert(!requested_below(self@)),
            }
        }
        let dir: Direction = match self.direction {
            Direction::Up(_) => if above.is_some() {
                Direction::Up(Some(0))
            } else if below.is_some() {
                Direction::Down(Some(0))
            } else {
                Direction::Idle
            },
            Direction::Down(_) => if below.is_some() {
                Direction::Down(Some(0))
            } else if above.is_some() {
                Direction::Up(Some(0))
            } else {
                Direction::Idle
            },
            Direction::Idle => match (above, below) {
                (Some(nu), Some(nb)) => {
                    proof {
                        lemma_nearest_above(self@.floors, index as int + 1);
                        lemma_nearest_below(self@.floors, index as int - 1);
                        assert(nu as int == nearest_above(self@.floors, index as int + 1));
                        assert(nb as int == nearest_below(self@.floors, index as int - 1));
                    }
                    if nu - index < index - nb {
                        Direction::Up(Some(0))
                    } else {
                        Direction::Down(Some(0))
                    }
                },
                (Some(_), None) => Direction::Up(Some(0)),
                (None, Some(_)) => Direction::Down(Some(0)),
                (None, None) => Direction::Idle,
            },
        };
        proof {
            assert(dir == chosen_direction(old(self)@));
        }
        let announcement: Option<Vec<u8>> = match dir {
            Direction::Up(_) => Some("ueni/mairima'_su,\r".as_bytes_vec()),
            Direction::Down(_) => Some("shitani/mairima'_su,\r".as_bytes_vec()),
            Direction::Idle => None,
        };
        let changed = self.set_direction(dir);
        Notifications { repaints: if changed { 1 } else { 0 }, announcement }
    }

    /// One logical tick, called unconditionally once per tick by the driver
    /// with the sampled per-floor call inputs.  In order: capture fresh calls
    /// (a fresh call at the very floor an idle car sits at starts opening the
    /// door at once and ends the tick); advance a moving door by one step,
    /// emitting the arrival cue when opening starts and the closing cue when
    /// closing starts, and clearing the serviced request when fully closed;
    /// with the door closed, advance travel by one step, handling arrivals
    /// and floor selection.  Returns what the driver must forward to its
    /// sinks; the new state and the notifications are exactly those of one
    /// [`step`] of the model.
    pub fn advance(&mut self, pressed: &Vec<bool>) -> (r: Notifications)
        requires
            old(self).wf(),
            pressed@.len() == old(self)@.floors.len(),
        ensures
            final(self).wf(),
            ({
                let (m2, repaints, announcement) = step(old(self)@, pressed@);
                &&& final(self)@ == m2
                &&& r.repaints == repaints
                &&& r.announcement.deep_view() == announcement
            }),
    {
        proof {
            lemma_step_preserves_inv(old(self)@, pressed@);
            assert(self@.floors =~= marked_floors(old(self)@.floors, pressed@, 0));
        }
        // Call capture.
        let mut i: usize = 0;
        while i < NUM_FLOORS
            invariant
                inv(old(self)@),
                pressed@.len() == NUM_FLOORS,
                i <= NUM_FLOORS,
                self.floors@.len() == NUM_FLOORS,
                self@.current_floor_index == old(self)@.current_floor_index,
                self@.direction == old(self)@.direction,
                self@.door == old(self)@.door,
                self@.floors == marked_floors(old(self)@.floors, pressed@, i as int),
                capture_opens(old(self)@, pressed@) ==> i <= old(self)@.current_floor_index,
            decreases NUM_FLOORS - i,
        {
            let ghost m0 = old(self)@;
            proof {
                assert(self@.floors[i as int] == self.floors@[i as int].deep_view());
                assert(self@.floors[i as int] == m0.floors[i as int]);
            }
            if pressed[i] {
                if !self.floors[i].requested {
                    let ghost pre = self@.floors;
                    self.floors[i].requested = true;
                    self.floors[i].indicator_on = true;
                    proof {
                        assert(self@.floors.len() == pre.len());
                        assert(self@.floors[i as int] == mark_floor(m0.floors[i as int]));
                        assert(forall|j: int|
                            0 <= j < pre.len() && j != i ==> #[trigger] self@.floors[j] == pre[j]);
                        assert(self@.floors =~= marked_floors(m0.floors, pressed@, i + 1));
                    }
                    let at_current = self.current_floor_index == i;
                    if self.direction == Direction::Idle && at_current {
                        let changed = self.set_door(DoorState::Opening(0));
                        proof {
                            assert(capture_opens(m0, pressed@));
                            assert(self@ =~= step(m0, pressed@).0);
                        }
                        return Notifications {
                            repaints: if changed {
                                1
                            } else {
                                0
                            },
                            announcement: None,
                        };
                    }
                } else {
                    proof {
                        assert(self@.floors =~= marked_floors(m0.floors, pressed@, i + 1));
                    }
                }
            } else {
                proof {
                    assert(self@.floors =~= marked_floors(m0.floors, pressed@, i + 1));
                }
            }
            i += 1;
        }
        let ghost m1 = self@;
        proof {
            assert(!capture_opens(old(self)@, pressed@));
            lemma_marked_floors_inv(old(self)@, pressed@, NUM_FLOORS as int);
            assert(m1 =~= (ElevatorModel {
                floors: marked_floors(
                    old(self)@.floors,
                    pressed@,
                    old(self)@.floors.len() as int,
                ),
                ..old(self)@
            }));
            assert(inv(m1));
        }
        // Door phase: while the door is moving, keep it moving.
        match self.door {
            DoorState::Opening(progress) => {
                if progress == 100 {
                    self.set_door(DoorState::Open(0));
                    proof {
                        assert(self@ =~= step(old(self)@, pressed@).0);
                    }
                    Notifications { repaints: 1, announcement: None }
                } else {
                    let announcement: Option<Vec<u8>> = if progress == 0 {
                        let index = self.current_floor_index;
                        proof {
                            assert(self@.floors[index as int] == self.floors@[index as int].deep_view());
                        }
                        Some(vstd::slice::slice_to_vec(self.floors[index].announcement_cue.as_slice()))
                    } else {
                        None
                    };
                    self.set_door(DoorState::Opening(progress + DOOR_MOVE_STEP));
                    proof {
                        assert(self@ =~= step(old(self)@, pressed@).0);
                    }
                    Notifications { repaints: 1, announcement }
                }
            },
            DoorState::Open(progress) => {
                if progress == 100 {
                    self.set_door(DoorState::Closing(0));
                } else {
                    self.set_door(DoorState::Open(progress + DOOR_DWELL_STEP));
                }
                proof {
                    assert(self@ =~= step(old(self)@, pressed@).0);
                }
                Notifications { repaints: 1, announcement: None }
            },
            DoorState::Closing(progress) => {
                if progress == 100 {
                    let index = self.current_floor_index;
                    proof {
                        assert(self@.floors[index as int] == self.floors@[index as int].deep_view());
                    }
                    if self.floors[index].requested {
                        self.floors[index].requested = false;
                        self.floors[index].indicator_on = false;
                        proof {
                            assert(self@.floors =~= m1.floors.update(
                                index as int,
                                clear_floor(m1.floors[index as int]),
                            ));
                        }
                    }
                    self.set_door(DoorState::Closed);
                    proof {
                        assert(self@ =~= step(old(self)@, pressed@).0);
                    }
                    Notifications { repaints: 1, announcement: None }
                } else {
                    let announcement: Option<Vec<u8>> = if progress == 0 {
                        Some("do'aga/shimarima'_su.\r".as_bytes_vec())
                    } else {
                        None
                    };
                    self.set_door(DoorState::Closing(progress + DOOR_MOVE_STEP));
                    proof {
                        assert(self@ =~= step(old(self)@, pressed@).0);
                    }
                    Notifications { repaints: 1, announcement }
                }
            },
            DoorState::Closed => {
                // Motion phase.
                match self.direction {
                    Direction::Up(value) => {
                        if let Some(progress) = value {
                            if progress == 100 {
                                proof {
                                    let j = choose|j: int|
                                        m1.current_floor_index < j < m1.floors.len()
                                            && #[trigger] m1.floors[j].requested;
                                    assert(m1.current_floor_index + 1 <= j);
                                }
                                let index = self.current_floor_index + 1;
                                self.set_current_floor_index(index);
                                proof {
                                    assert(self@.floors[index as int] == self.floors@[index as int].deep_view());
                                }
                                if self.floors[index].requested {
                                    self.set_door(DoorState::Opening(0));
                                    let dir: Direction = if index == NUM_FLOORS - 1 {
                                        if self.rfind_requested_below(index).is_some() {
                                            Direction::Down(None)
                                        } else {
                                            Direction::Idle
                                        }
                                    } else {
                                        Direction::Up(None)
                                    };
                                    self.set_direction(dir);
                                    proof {
                                        assert(self@ =~= step(old(self)@, pressed@).0);
                                    }
                                    Notifications { repaints: 3, announcement: None }
                                } else {
                                    self.set_direction(Direction::Up(Some(0)));
                                    proof {
                                        assert(self@ =~= step(old(self)@, pressed@).0);
                                    }
                                    Notifications { repaints: 2, announcement: None }
                                }
                            } else {
                                self.set_direction(Direction::Up(Some(progress + TRAVEL_STEP)));
                                proof {
                                    assert(self@ =~= step(old(self)@, pressed@).0);
                                }
                                Notifications { repaints: 1, announcement: None }
                            }
                        } else {
                            let r = self.goto_next_floor();
                            proof {
                                assert(self@ =~= step(old(self)@, pressed@).0);
                            }
                            r
                        }
                    },
                    Direction::Down(value) => {
                        if let Some(progress) = value {
                            if progress == 100 {
                                proof {
                                    let j = choose|j: int|
                                        0 <= j < m1.current_floor_index && #[trigger] m1.floors[j].requested;
                                    assert(j <= m1.current_floor_index - 1);
                                }
                                let index = self.current_floor_index - 1;
                                self.set_current_floor_index(index);
                                proof {
                                    assert(self@.floors[index as int] == self.floors@[index as int].deep_view());
                                }
                                if self.floors[index].requested {
                                    self.set_door(DoorState::Opening(0));
                                    let dir: Direction = if index == 0 {
                                        if self.find_requested_in(1, NUM_FLOORS).is_some() {
                                            Direction::Up(None)
                                        } else {
                                            Direction::Idle
                                        }
                                    } else {
                                        Direction::Down(None)
                                    };
                                    self.set_direction(dir);
                                    proof {
                                        assert(self@ =~= step(old(self)@, pressed@).0);
                                    }
                                    Notifications { repaints: 3, announcement: None }
                                } else {
                                    self.set_direction(Direction::Down(Some(0)));
                                    proof {
                                        assert(self@ =~= step(old(self)@, pressed@).0);
                                    }
                                    Notifications { repaints: 2, announcement: None }
                                }
                            } else {
                                self.set_direction(Direction::Down(Some(progress + TRAVEL_STEP)));
                                proof {
                                    assert(self@ =~= step(old(self)@, pressed@).0);
                                }
                                Notifications { repaints: 1, announcement: None }
                            }
                        } else {
                            let r = self.goto_next_floor();
                            proof {
                                assert(self@ =~= step(old(self)@, pressed@).0);
                            }
                            r
                        }
                    },
                    Direction::Idle => {
                        let r = self.goto_next_floor();
                        proof {
                            assert(self@ =~= step(old(self)@, pressed@).0);
                        }
                        r
                    },
                }
            },
        }
    }

    /// Manual door override from the passenger "open"/"close" buttons.
    /// Returns whether the request was accepted.  Opening is accepted from
    /// `Open` (the dwell restarts), from `Closing` (the door reverses,
    /// honouring elapsed progress) and from `Closed` only while the car is
    /// idle — travel is never interrupted; it is rejected while already
    /// `Opening`.  Closing is accepted only from `Open`.
    pub fn set_door_open(&mut self, value: bool) -> (accepted: bool)
        requires
            old(self).wf(),
        ensures
            final(self).wf(),
            accepted == door_override_accepted(old(self)@, value),
            accepted ==> final(self)@ == (ElevatorModel {
                door: door_override(old(self)@.door, value),
                ..old(self)@
            }),
            !accepted ==> final(self)@ == old(self)@,
    {
        if value {
            match self.door {
                DoorState::Opening(_) => false,
                DoorState::Open(_) => {
                    self.set_door(DoorState::Open(0));
                    true
                },
                DoorState::Closing(progress) => {
                    self.set_door(DoorState::Opening(100 - progress));
                    true
                },
                DoorState::Closed => {
                    if self.direction == Direction::Idle {
                        self.set_door(DoorState::Opening(0));
                        true
                    } else {
                        false
                    }
                },
            }
        } else {
            match self.door {
                DoorState::Open(_) => {
                    self.set_door(DoorState::Closing(0));
                    true
                },
                _ => false,
            }
        }
    }
}

/// How far a door in this state is open, as a percentage.
pub open spec fn door_openness_of(door: DoorState) -> int {
    match door {
        DoorState::Opening(p) => p as int,
        DoorState::Open(_) => 100,
        DoorState::Closing(p) => 100 - p,
        DoorState::Closed => 0,
    }
}

/// Whether the manual door override is accepted in this state.
pub open spec fn door_override_accepted(m: ElevatorModel, value: bool) -> bool {
    if value {
        match m.door {
            DoorState::Opening(_) => false,
            DoorState::Open(_) => true,
            DoorState::Closing(_) => true,
            DoorState::Closed => m.direction == Direction::Idle,
        }
    } else {
        m.door matches DoorState::Open(_)
    }
}

/// The door state an accepted manual override moves to.
pub open spec fn door_override(door: DoorState, value: bool) -> DoorState {
    if value {
        match door {
            DoorState::Open(_) => DoorState::Open(0),
            DoorState::Closing(p) => DoorState::Opening((100 - p) as u8),
            _ => DoorState::Opening(0),
        }
    } else {
        DoorState::Closing(0)
    }
}

/// Marking a floor preserves the car's invariant.
pub proof fn lemma_mark_preserves_inv(m: ElevatorModel, i: int)
    requires
        inv(m),
        0 <= i < m.floors.len(),
    ensures
        inv(ElevatorModel { floors: m.floors.update(i, mark_floor(m.floors[i])), ..m }),
{
    let m2 = ElevatorModel { floors: m.floors.update(i, mark_floor(m.floors[i])), ..m };
    assert(levels_sorted(m2.floors));
    assert(indicators_follow_requests(m2.floors));
    match m.direction {
        Direction::Up(progress) => {
            if progress is Some {
                let j = choose|j: int|
                    m.current_floor_index < j < m.floors.len() && #[trigger] m.floors[j].requested;
                assert(m2.floors[j].requested);
            }
        },
        Direction::Down(progress) => {
            if progress is Some {
                let j = choose|j: int|
                    0 <= j < m.current_floor_index && #[trigger] m.floors[j].requested;
                assert(m2.floors[j].requested);
            }
        },
        Direction::Idle => {},
    }
}

/// With sorted (hence unique) levels, any index holding `level` is the one
/// [`index_of_level`] denotes.
pub proof fn lemma_index_of_level_unique(floors: Seq<FloorModel>, level: int, i: int)
    requires
        levels_sorted(floors),
        0 <= i < floors.len(),
        floors[i].level == level,
    ensures
        index_of_level(floors, level) == i,
{
    assert(has_level(floors, level));
    let j = index_of_level(floors, level);
    if j < i {
        assert(floors[j].level < floors[i].level);
    } else if j > i {
        assert(floors[i].level < floors[j].level);
    }
}

} // verus!
