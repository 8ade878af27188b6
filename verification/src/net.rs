//! IP addresses as plain bytes.

use vstd::prelude::*;

verus! {

/// An IPv4 or IPv6 address, as the number its bytes spell in network
/// byte order (so `10.0.0.1` is `0x0a00_0001`).
#[derive(Debug, Clone, Copy, PartialEq, Eq, Structural, Hash, PartialOrd, Ord)]
pub enum IpAddr {
    V4(u32),
    V6(u128),
}

} // verus!
