//! What holds of the library as a whole, said of what goes in and what comes out.

pub mod admin;
pub mod backup;
pub mod decrypt;
pub mod intercept;
pub mod json;
pub mod machine;
pub mod media;
pub mod order;
pub mod percent;
pub mod replies;
pub mod rooms;
pub mod routes;
pub mod send;
pub mod session;
pub mod ssss;
pub mod sync;
pub mod text;
pub mod verify;
pub mod views;
