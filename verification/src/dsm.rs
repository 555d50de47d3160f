//! The DSM web API: the session protocol, and what the library reads out of
//! the system and storage replies.

pub mod client;
pub mod storage;
pub mod system;
