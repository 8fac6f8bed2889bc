//! Control logic of a small passenger elevator.
//!
//! The car state machine owns the current floor index, the travel direction,
//! the door state and the per-floor request table.  A driver loop samples the
//! call inputs once per logical tick, forwards them to [`elevator::Elevator::advance`],
//! and renders the state and emits the returned announcement afterwards.
//! The scheduling policy is a LOOK/SCAN variant: the car keeps serving
//! requests in its current travel direction until none remain, then reverses.

pub mod elevator;
pub mod laws;
pub mod model;

pub use elevator::Direction;
pub use elevator::DoorState;
pub use elevator::Elevator;
pub use elevator::Floor;
pub use elevator::FloorConfig;
pub use elevator::Notifications;
