//! Server side of the iperf3 (3.21) control protocol, as a state machine that
//! takes bytes in and hands back I/O commands, plus the wire formats it uses:
//! length-prefixed JSON frames, the UDP datagram header and the results JSON.

pub mod be;
pub mod frame;
pub mod history;
pub mod params;
pub mod results;
pub mod session;
pub mod state;
pub mod udp;

pub use frame::{FrameError, MAX_PARAMS_JSON, decode_json_len, encode_json_frame};
pub use params::{JsonField, JsonNumber, ParamsDoc, ParamsError, TestParams, Transport};
pub use results::{StreamStats, encode_results_json};
pub use session::{Io, Phase, Server, Session, SessionError, SessionState, Start};
pub use udp::{UdpError, UdpHeader, is_udp_connect_msg, next_udp_packet_count};

use vstd::prelude::*;

verus! {

/// Length in bytes of the cookie that opens the control and data connections.
pub const COOKIE_SIZE: usize = 37;

/// Version string of this protocol library.
pub fn proto_version() -> (v: &'static str)
    ensures
        v@ == "0.1.0"@,
{
    "0.1.0"
}

} // verus!
