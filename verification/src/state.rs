//! Control-channel state bytes of iperf 3.21 (`iperf_api.h`). Each is sent
//! as one signed byte.

use vstd::prelude::*;

verus! {

/// PARAM_EXCHANGE: server to client; the client then sends its parameter JSON.
pub const PARAM_EXCHANGE: i8 = 9;

/// CREATE_STREAMS: server to client; the client then opens the data connection.
pub const CREATE_STREAMS: i8 = 10;

/// TEST_START: server to client.
pub const TEST_START: i8 = 1;

/// TEST_RUNNING: server to client; data flows after it.
pub const TEST_RUNNING: i8 = 2;

/// TEST_END: client to server.
pub const TEST_END: i8 = 4;

/// EXCHANGE_RESULTS: server to client; each side then sends a results JSON.
pub const EXCHANGE_RESULTS: i8 = 13;

/// DISPLAY_RESULTS: server to client.
pub const DISPLAY_RESULTS: i8 = 14;

/// IPERF_DONE: client to server.
pub const IPERF_DONE: i8 = 16;

/// ACCESS_DENIED: a test is already running.
pub const ACCESS_DENIED: i8 = -1;

/// SERVER_ERROR: followed by two big-endian 32-bit values, the iperf error
/// number and errno.
pub const SERVER_ERROR: i8 = -2;

/// The byte that carries a state on the wire (its two's complement).
pub open spec fn state_byte(s: i8) -> u8 {
    s as u8
}

} // verus!
