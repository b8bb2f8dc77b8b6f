//! The logic of a proxy that gives Matrix clients end-to-end encryption.
//!
//! The proxy stands between a client and its homeserver. It decrypts the events of what
//! the client receives, encrypts what the client sends to encrypted rooms, and does the
//! same for attachments. This library decides what becomes of each request and response;
//! it takes what came over the wire as plain values, and says what to do next.
#![allow(unused_imports)]

pub mod admin;
pub mod config;
pub mod crypto;
pub mod error;
pub mod failure;
pub mod ids;
pub mod json;
pub mod json_text;
pub mod laws;
pub mod percent;
pub mod proxy;
pub mod session;
pub mod string_map;
pub mod text;
pub mod upstream;
pub mod wire;
