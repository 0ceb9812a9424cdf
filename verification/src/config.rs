//! What the proxy falls back on where nothing else is configured.

use vstd::prelude::*;
use vstd::string::StringExecFns;

verus! {

/// The address that the proxy listens on where none is configured.
pub open spec fn default_listen_address() -> Seq<char> {
    "0.0.0.0:51080"@
}

/// The egress subnet where none is configured.
pub open spec fn default_subnet() -> Seq<char> {
    "2001:19f0:6001:48e4::/64"@
}

/// The address to listen on: the configured one, or the default where none
/// is configured.
pub fn listen_address(configured: Option<String>) -> (address: String)
    ensures
        address@ == match configured {
            Some(text) => text@,
            None => default_listen_address(),
        },
{
    match configured {
        Some(text) => text,
        None => String::from_str("0.0.0.0:51080"),
    }
}

/// The egress subnet in CIDR notation: the configured one, or the default
/// where none is configured.
pub fn subnet_text(configured: Option<String>) -> (subnet: String)
    ensures
        subnet@ == match configured {
            Some(text) => text@,
            None => default_subnet(),
        },
{
    match configured {
        Some(text) => text,
        None => String::from_str("2001:19f0:6001:48e4::/64"),
    }
}

} // verus!
