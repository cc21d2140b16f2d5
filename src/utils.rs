pub mod duration;
pub mod expiry;
pub mod time_util;
