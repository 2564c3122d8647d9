//! A small HTTP front proxy: request routing by configured locations,
//! response and request serialization, and parsing of upstream replies.

pub mod config;
pub mod http;
pub mod proxy;
pub mod str_map;
pub mod text;
pub mod wire;
