//! Limits applied while decoding MQTT packets.

use vstd::prelude::*;

verus! {

/// The default maximum packet size: 256 MiB.
pub const DEFAULT_MAX_PACKET_SIZE: usize = 268_435_456;

/// Limits applied while decoding packets.
#[derive(Debug, Clone, Copy, PartialEq, Eq, Structural)]
pub struct Limits {
    /// The largest packet size in bytes, fixed header included.
    pub max_packet_size: usize,
}

impl Limits {
    /// Creates `Limits` with the default values.
    ///
    /// The default maximum packet size is 256 MiB. It is a value large enough for
    /// most uses, not a conservative one; with untrusted peers or little memory,
    /// set a smaller one with [`Self::with_max_packet_size`].
    pub fn new() -> (r: Self)
        ensures
            r.max_packet_size == DEFAULT_MAX_PACKET_SIZE,
    {
        Self { max_packet_size: DEFAULT_MAX_PACKET_SIZE }
    }

    /// Sets the maximum packet size.
    pub fn with_max_packet_size(self, size: usize) -> (r: Self)
        ensures
            r.max_packet_size == size,
    {
        let mut s = self;
        s.max_packet_size = size;
        s
    }
}

impl Default for Limits {
    fn default() -> (r: Self)
        ensures
            r.max_packet_size == DEFAULT_MAX_PACKET_SIZE,
    {
        Self::new()
    }
}

} // verus!
