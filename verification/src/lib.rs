//! A supervisor of virtual entities: one worker per entity identifier,
//! created on the first command and retired after a period of inactivity.
//!
//! The library holds the supervisor's decisions: which worker a command goes
//! to, when a worker has to be created, which workers a sweep retires, and
//! when the passivation timer is armed. Creating, addressing and stopping
//! workers is left to the runtime that drives the supervisor.

pub mod clock;
pub mod entity;
pub mod lifecycle;
pub mod registry;
pub mod settings;

pub use clock::Timestamp;
pub use entity::{
    Action, Entity, EntityActor, EntityActorProps, Inbound, Registration, TickSchedule,
    TICK_PERIOD_SECS,
};
pub use registry::{EntityInstance, Registry};
pub use settings::{ConfigFault, EntityActorConfig, SLEEP_AFTER_KEY};
