//! Settings of a broker node.
use vstd::prelude::*;

verus! {

#[derive(Debug, Clone, PartialEq, Eq)]
pub struct RobustConfig {
    pub addr: String,
    pub broker: Broker,
    pub admin: Admin,
}

#[derive(Debug, Clone, Copy, PartialEq, Eq, Structural)]
pub struct Broker {
    pub port: Option<u16>,
    pub work_thread: Option<u16>,
}

#[derive(Debug, Clone, Copy, PartialEq, Eq, Structural)]
pub struct Admin {
    pub port: Option<u16>,
    pub work_thread: Option<u16>,
}

} // verus!
