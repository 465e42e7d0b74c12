//! Status signalling vocabulary: the states the LED blinker is asked to
//! show. The blinker itself drives hardware and lives outside the
//! library; producers hand it these values.

use vstd::prelude::*;

verus! {

/// A condition worth signalling on the status LED.
#[derive(Clone, Copy, Debug, PartialEq, Eq, Structural)]
pub enum LedState {
    Okay,
    TCP(bool),
    MQTT(bool),
    RPCError,
}

} // verus!
