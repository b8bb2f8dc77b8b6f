//! End-to-end encryption: what is sent, received, stored and verified.

pub mod backup;
pub mod decrypt;
pub mod encrypt;
pub mod machine;
pub mod media;
pub mod rooms;
pub mod ssss;
pub mod sync;
pub mod verify;
