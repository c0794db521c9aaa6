//! The parameters that an iperf 3.21 client sends as JSON, and the rules of
//! this server on which of them it accepts.
//!
//! The JSON text itself is parsed outside this library; what the rules read
//! of it is handed in as a [`ParamsDoc`]: for each key they look at, what the
//! document holds there.

use vstd::prelude::*;

verus! {

/// Default TCP block length (`DEFAULT_TCP_BLKSIZE` in iperf_api.h).
pub const DEFAULT_TCP_BLKSIZE: u32 = 131072;

/// Default UDP datagram length (`DEFAULT_UDP_BLKSIZE`).
pub const DEFAULT_UDP_BLKSIZE: u32 = 1460;

/// Default UDP target rate in bit/s (`UDP_RATE` in iperf.h).
pub const DEFAULT_UDP_RATE_BPS: u64 = 1048576;

/// Default test length in seconds (`DURATION`).
pub const DEFAULT_DURATION_SECS: u32 = 10;

/// Smallest UDP block: seconds, microseconds and a 64-bit sequence number
/// (`MIN_UDP_BLOCKSIZE` in iperf.h).
pub const MIN_UDP_BLOCKSIZE: u32 = 16;

#[derive(Debug, Clone, Copy, PartialEq, Eq, Structural)]
pub enum Transport {
    Tcp,
    Udp,
}

/// Why a parameter object is refused.
#[derive(Debug, Clone, Copy, PartialEq, Eq, Structural)]
pub enum ParamsError {
    /// Not a JSON object.
    InvalidJson,
    /// SCTP was asked for.
    Sctp,
    /// More than one stream was asked for.
    Parallel,
    /// Both directions at once were asked for.
    Bidir,
    /// A UDP block too small for the datagram header.
    UdpTooSmall,
}

/// The accepted parameters of one test.
#[derive(Debug, Clone, Copy, PartialEq, Eq, Structural)]
pub struct TestParams {
    pub transport: Transport,
    pub reverse: bool,
    pub time_secs: u32,
    pub parallel: u32,
    pub blksize: u32,
    pub bandwidth_bps: u64,
    pub udp_counters_64bit: bool,
}

/// A JSON number, as the parameter rules read it.
#[derive(Debug, Clone, Copy, PartialEq, Eq, Structural)]
pub enum JsonNumber {
    /// An integer from 0 to `u64::MAX`.
    UInt(u64),
    /// A negative integer from `i64::MIN`.
    NegInt(i64),
    /// Any other number (with a fraction or an exponent, or an integer out of
    /// range), held as what the rules read of it: whether it is at least 0,
    /// and its value converted to `u64` (toward zero, saturating).
    Float { non_negative: bool, truncated: u64 },
}

/// What a JSON object holds under one key.
#[derive(Debug, Clone, Copy, PartialEq, Eq, Structural)]
pub enum JsonField {
    /// The key is not there.
    Absent,
    Bool(bool),
    Number(JsonNumber),
    /// `null`, a string, an array or an object.
    Other,
}

/// The keys of the client's parameter object that the rules read.
#[derive(Debug, Clone, Copy, PartialEq, Eq, Structural)]
pub struct ParamsDoc {
    pub sctp: JsonField,
    pub bidirectional: JsonField,
    pub bidir: JsonField,
    pub parallel: JsonField,
    pub udp: JsonField,
    pub time: JsonField,
    pub reverse: JsonField,
    pub udp_counters_64bit: JsonField,
    pub len: JsonField,
    pub bandwidth: JsonField,
}

/// The field holds the JSON value `true`.
pub open spec fn field_true(f: JsonField) -> bool {
    f == JsonField::Bool(true)
}

/// The field read as a `u64`: a non-negative number, integers as they are,
/// other numbers converted toward zero; nothing for anything else.
pub open spec fn field_u64(f: JsonField) -> Option<u64> {
    match f {
        JsonField::Number(JsonNumber::UInt(n)) => Some(n),
        JsonField::Number(JsonNumber::NegInt(i)) => if i >= 0 {
            Some(i as u64)
        } else {
            None
        },
        JsonField::Number(JsonNumber::Float { non_negative, truncated }) => if non_negative {
            Some(truncated)
        } else {
            None
        },
        _ => None,
    }
}

/// The field read as a `u32`: as [`field_u64`], and nothing when it does not
/// fit.
pub open spec fn field_u32(f: JsonField) -> Option<u32> {
    match field_u64(f) {
        Some(n) => if n <= u32::MAX {
            Some(n as u32)
        } else {
            None
        },
        None => None,
    }
}

/// The block length for a transport when the client names none.
pub open spec fn default_blksize(t: Transport) -> u32 {
    match t {
        Transport::Tcp => DEFAULT_TCP_BLKSIZE,
        Transport::Udp => DEFAULT_UDP_BLKSIZE,
    }
}

/// The rate for a transport when the client names none (0: unlimited).
pub open spec fn default_bandwidth(t: Transport) -> u64 {
    match t {
        Transport::Tcp => 0,
        Transport::Udp => DEFAULT_UDP_RATE_BPS,
    }
}

/// The rules of this server. A document that is not a JSON object is
/// refused; then, in this order: SCTP, both directions at once, and any
/// stream count but 1 are refused. The transport is UDP when `udp` is true,
/// else TCP. Missing values take the defaults: 10 s, 1 stream, the
/// transport's block length (also for a length of 0) and rate (also for a
/// rate of 0). A UDP block shorter than the header is refused.
pub open spec fn params_from_doc(doc: Option<ParamsDoc>) -> Result<TestParams, ParamsError> {
    match doc {
        None => Err(ParamsError::InvalidJson),
        Some(d) => {
            let parallel = match field_u32(d.parallel) {
                Some(n) => n,
                None => 1,
            };
            let transport = if field_true(d.udp) {
                Transport::Udp
            } else {
                Transport::Tcp
            };
            let blksize = match field_u32(d.len) {
                Some(n) => if n > 0 {
                    n
                } else {
                    default_blksize(transport)
                },
                None => default_blksize(transport),
            };
            if field_true(d.sctp) {
                Err(ParamsError::Sctp)
            } else if field_true(d.bidirectional) || field_true(d.bidir) {
                Err(ParamsError::Bidir)
            } else if parallel != 1 {
                Err(ParamsError::Parallel)
            } else if transport == Transport::Udp && blksize < MIN_UDP_BLOCKSIZE {
                Err(ParamsError::UdpTooSmall)
            } else {
                Ok(
                    TestParams {
                        transport,
                        reverse: field_true(d.reverse),
                        time_secs: match field_u32(d.time) {
                            Some(n) => n,
                            None => DEFAULT_DURATION_SECS,
                        },
                        parallel,
                        blksize,
                        bandwidth_bps: match field_u64(d.bandwidth) {
                            Some(n) => if n > 0 {
                                n
                            } else {
                                default_bandwidth(transport)
                            },
                            None => default_bandwidth(transport),
                        },
                        udp_counters_64bit: match field_u32(d.udp_counters_64bit) {
                            Some(n) => n != 0,
                            None => false,
                        },
                    },
                )
            }
        },
    }
}

/// Whether the field holds `true`.
fn json_true(f: &JsonField) -> (r: bool)
    ensures
        r == field_true(*f),
{
    match f {
        JsonField::Bool(b) => *b,
        _ => false,
    }
}

/// The field read as a `u64`.
fn json_u64(f: &JsonField) -> (r: Option<u64>)
    ensures
        r == field_u64(*f),
{
    match f {
        JsonField::Number(JsonNumber::UInt(n)) => Some(*n),
        JsonField::Number(JsonNumber::NegInt(i)) => if *i >= 0 {
            Some(*i as u64)
        } else {
            None
        },
        JsonField::Number(JsonNumber::Float { non_negative, truncated }) => if *non_negative {
            Some(*truncated)
        } else {
            None
        },
        _ => None,
    }
}

/// The field read as a `u32`.
fn json_u32(f: &JsonField) -> (r: Option<u32>)
    ensures
        r == field_u32(*f),
{
    match json_u64(f) {
        Some(n) => if n <= 0xFFFF_FFFFu64 {
            Some(n as u32)
        } else {
            None
        },
        None => None,
    }
}

impl TestParams {
    /// Applies the rules to the client's parameter object; `None` stands
    /// for a text that is not a JSON object.
    pub fn from_doc(doc: Option<&ParamsDoc>) -> (r: Result<Self, ParamsError>)
        ensures
            r == params_from_doc(match doc {
                Some(d) => Some(*d),
                None => None,
            }),
    {
        let d = match doc {
            None => return Err(ParamsError::InvalidJson),
            Some(d) => d,
        };
        if json_true(&d.sctp) {
            return Err(ParamsError::Sctp);
        }
        if json_true(&d.bidirectional) || json_true(&d.bidir) {
            return Err(ParamsError::Bidir);
        }
        let parallel = match json_u32(&d.parallel) {
            Some(n) => n,
            None => 1,
        };
        if parallel != 1 {
            return Err(ParamsError::Parallel);
        }
        let transport = if json_true(&d.udp) {
            Transport::Udp
        } else {
            Transport::Tcp
        };
        let time_secs = match json_u32(&d.time) {
            Some(n) => n,
            None => DEFAULT_DURATION_SECS,
        };
        let reverse = json_true(&d.reverse);
        let udp_counters_64bit = match json_u32(&d.udp_counters_64bit) {
            Some(n) => n != 0,
            None => false,
        };
        let default_len = match transport {
            Transport::Tcp => DEFAULT_TCP_BLKSIZE,
            Transport::Udp => DEFAULT_UDP_BLKSIZE,
        };
        let blksize = match json_u32(&d.len) {
            Some(n) => if n > 0 {
                n
            } else {
                default_len
            },
            None => default_len,
        };
        if transport == Transport::Udp && blksize < MIN_UDP_BLOCKSIZE {
            return Err(ParamsError::UdpTooSmall);
        }
        let default_rate = match transport {
            Transport::Udp => DEFAULT_UDP_RATE_BPS,
            Transport::Tcp => 0,
        };
        let bandwidth_bps = match json_u64(&d.bandwidth) {
            Some(n) => if n > 0 {
                n
            } else {
                default_rate
            },
            None => default_rate,
        };
        Ok(
            Self {
                transport,
                reverse,
                time_secs,
                parallel,
                blksize,
                bandwidth_bps,
                udp_counters_64bit,
            },
        )
    }
}

/// The test runs as long as the client asks: accepted parameters carry the
/// `time` the client sent, whenever it reads as a `u32`; only a missing or
/// unreadable `time` gives the default. The `time` never decides whether the
/// parameters are accepted.
pub proof fn law_time_as_asked(d: ParamsDoc, n: u32)
    ensures
        params_from_doc(Some(d)) is Ok <==> params_from_doc(
            Some(ParamsDoc { time: JsonField::Absent, ..d }),
        ) is Ok,
        params_from_doc(Some(d)) matches Ok(p) ==> match field_u32(d.time) {
            Some(n) => p.time_secs == n,
            None => p.time_secs == DEFAULT_DURATION_SECS,
        },
        d.time == JsonField::Number(JsonNumber::UInt(n as u64)) ==> (params_from_doc(Some(d))
            matches Ok(p) ==> p.time_secs == n),
{
}

} // verus!
