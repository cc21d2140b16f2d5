pub mod acl;
pub mod buffer;
pub mod config;
pub mod http;
pub mod jwt;
pub mod protocol;
pub mod share;
pub mod utils;
