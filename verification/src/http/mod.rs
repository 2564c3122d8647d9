//! The HTTP client side: requests sent upstream, responses read back.

pub mod client;
pub mod req;
pub mod res;
