//! A small HTTP gateway: request routing between modules, a raw HTTP/1.x
//! request-line and header reader, JWT access and refresh tokens, and a
//! user store with password hashing.

pub mod text;
pub mod table;
pub mod http;
pub mod proto;
pub mod utils;
pub mod modules;
pub mod security;
pub mod login;
pub mod staticfs;
pub mod contact;
