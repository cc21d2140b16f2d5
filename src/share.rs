pub mod delivery;
pub mod strategy;
pub mod ack;
pub mod pkid;
pub mod log;
pub mod registry;
pub mod worker;
pub mod supervisor;
