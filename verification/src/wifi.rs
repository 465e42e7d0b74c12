//! Wireless-link control vocabulary: the commands the connection
//! supervisor task accepts. The supervisor itself drives the radio and
//! lives outside the library.

use vstd::prelude::*;

verus! {

/// A command for the wireless connection supervisor.
#[derive(Clone, Copy, Debug, PartialEq, Eq, Structural)]
pub enum WifiCmd {
    ConnectSta,
}

} // verus!
