//! The proxy's configuration: buffer size and the served locations.

use vstd::prelude::*;

use crate::str_map::StrMap;

verus! {

/// Where requests for one location are passed on to.
pub struct Location {
    pub proxy_pass: String,
}

/// The proxy's configuration.
pub struct Config {
    /// How many bytes of a request are read.
    pub max_tcp_buffer_size: usize,
    /// The served locations, by request path.
    pub location: StrMap<Location>,
}

} // verus!
