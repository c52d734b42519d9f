//! Coordination core for a fleet of field units ("minions") directed by a
//! central coordinator ("mothership").
pub mod geometry;
pub mod peer;
pub mod ledger;
pub mod mission;
pub mod minion;
pub mod codec;
pub mod tasks;

pub use geometry::{Coordinate, MissionArea};
pub use ledger::DelegateTasks;
pub use mission::{DelegateTaskMessage, Minion, MissionEvent, MissionStatus, MothershipState};
pub use minion::{MinionHeartbeat, MinionState};
pub use tasks::TaskQueue;
