//! Constants of the root "civium" network.
use vstd::prelude::*;

verus! {

/// Full CID of the root network (empty until the server keypair is generated).
pub const CIVIUM_ROOT_NETWORK_CID_FULL: &'static str = "";

/// Short CID of the root network (empty until configured).
pub const CIVIUM_ROOT_NETWORK_CID_SHORT: &'static str = "";

/// Name of the root network.
pub const CIVIUM_ROOT_NETWORK_NAME: &'static str = "civium";

/// Multiaddr of the root node (empty until configured).
pub const CIVIUM_ROOT_NODE_ADDR: &'static str = "";

/// `true` when all root network constants are configured: the full CID, the short CID
/// and the root node address.
pub fn root_configured() -> (b: bool)
    ensures
        b == (CIVIUM_ROOT_NETWORK_CID_FULL@.len() > 0 && CIVIUM_ROOT_NETWORK_CID_SHORT@.len() > 0
            && CIVIUM_ROOT_NODE_ADDR@.len() > 0),
{
    !CIVIUM_ROOT_NETWORK_CID_FULL.is_empty() && !CIVIUM_ROOT_NETWORK_CID_SHORT.is_empty()
        && !CIVIUM_ROOT_NODE_ADDR.is_empty()
}

} // verus!
