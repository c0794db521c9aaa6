//! iperf 3.21 UDP datagram header and the UDP "connect" handshake bytes.

use vstd::prelude::*;
use crate::be::{be32, be32_at, be64, be64_at, lemma_be32_roundtrip, lemma_be64_roundtrip, read_be32, read_be64, write_be32, write_be64};

verus! {

/// The client's UDP "connect" datagram: ASCII "9876".
pub const UDP_CONNECT_MSG: [u8; 4] = [0x39, 0x38, 0x37, 0x36];

/// The server's UDP "accept" reply: ASCII "6789".
pub const UDP_CONNECT_REPLY: [u8; 4] = [0x36, 0x37, 0x38, 0x39];

/// The reply of older servers (987654321 laid out little-endian).
pub const LEGACY_UDP_CONNECT_REPLY: [u8; 4] = [0xB1, 0x68, 0xDE, 0x3A];

/// The buffer is too short for the header.
#[derive(Debug, Clone, Copy, PartialEq, Eq, Structural)]
pub struct UdpError;

/// The header at the start of every UDP datagram: send time and sequence
/// number.
#[derive(Debug, Clone, Copy, PartialEq, Eq, Structural)]
pub struct UdpHeader {
    pub sec: u32,
    pub usec: u32,
    pub packet_count: u64,
}

/// Header length: 12 bytes with 32-bit counters, 16 with 64-bit counters.
pub open spec fn header_len(counters_64bit: bool) -> usize {
    if counters_64bit {
        16
    } else {
        12
    }
}

/// The wire bytes of a header: seconds, microseconds and sequence number,
/// each big-endian; with 32-bit counters only the low 32 bits of the
/// sequence number are sent.
pub open spec fn header_bytes(h: UdpHeader, counters_64bit: bool) -> Seq<u8> {
    be32(h.sec) + be32(h.usec) + if counters_64bit {
        be64(h.packet_count)
    } else {
        be32(h.packet_count as u32)
    }
}

/// The header that the first bytes of `buf` hold.
pub open spec fn header_from_bytes(buf: Seq<u8>, counters_64bit: bool) -> UdpHeader {
    UdpHeader {
        sec: be32_at(buf, 0),
        usec: be32_at(buf, 4),
        packet_count: if counters_64bit {
            be64_at(buf, 8)
        } else {
            be32_at(buf, 8) as u64
        },
    }
}

/// What `decode` gives for `buf`.
pub open spec fn decode_header(counters_64bit: bool, buf: Seq<u8>) -> Result<UdpHeader, UdpError> {
    if buf.len() < header_len(counters_64bit) {
        Err(UdpError)
    } else {
        Ok(header_from_bytes(buf, counters_64bit))
    }
}

impl UdpHeader {
    /// 12 bytes with 32-bit counters, 16 with 64-bit counters.
    pub fn encoded_len(counters_64bit: bool) -> (n: usize)
        ensures
            n == header_len(counters_64bit),
    {
        if counters_64bit {
            16
        } else {
            12
        }
    }

    /// Writes the header into the start of `out` and returns its length;
    /// fails, leaving `out` as it was, when `out` is too short.
    pub fn encode(&self, counters_64bit: bool, out: &mut [u8]) -> (r: Result<usize, UdpError>)
        ensures
            old(out)@.len() < header_len(counters_64bit) ==> r == Err::<usize, UdpError>(UdpError)
                && final(out)@ == old(out)@,
            old(out)@.len() >= header_len(counters_64bit) ==> r == Ok::<usize, UdpError>(
                header_len(counters_64bit),
            ) && final(out)@ == header_bytes(*self, counters_64bit) + old(out)@.subrange(
                header_len(counters_64bit) as int,
                old(out)@.len() as int,
            ),
    {
        let n = Self::encoded_len(counters_64bit);
        if out.len() < n {
            return Err(UdpError);
        }
        write_be32(out, 0, self.sec);
        write_be32(out, 4, self.usec);
        if counters_64bit {
            write_be64(out, 8, self.packet_count);
        } else {
            write_be32(out, 8, #[verifier::truncate] (self.packet_count as u32));
        }
        assert(final(out)@ =~= header_bytes(*self, counters_64bit) + old(out)@.subrange(
            n as int,
            old(out)@.len() as int,
        ));
        Ok(n)
    }

    /// Reads a header from the start of `buf`; fails when `buf` is too short.
    pub fn decode(counters_64bit: bool, buf: &[u8]) -> (r: Result<Self, UdpError>)
        ensures
            r == decode_header(counters_64bit, buf@),
    {
        let n = Self::encoded_len(counters_64bit);
        if buf.len() < n {
            return Err(UdpError);
        }
        let sec = read_be32(buf, 0);
        let usec = read_be32(buf, 4);
        let packet_count = if counters_64bit {
            read_be64(buf, 8)
        } else {
            read_be32(buf, 8) as u64
        };
        Ok(Self { sec, usec, packet_count })
    }
}

/// Decoding what `encode` wrote, followed by any bytes, gives back the
/// header; with 32-bit counters the sequence number comes back modulo 2^32.
pub proof fn lemma_header_roundtrip(h: UdpHeader, counters_64bit: bool, rest: Seq<u8>)
    ensures
        decode_header(counters_64bit, header_bytes(h, counters_64bit) + rest) == Ok::<
            UdpHeader,
            UdpError,
        >(
            UdpHeader {
                packet_count: if counters_64bit {
                    h.packet_count
                } else {
                    (h.packet_count as u32) as u64
                },
                ..h
            },
        ),
{
    let s = header_bytes(h, counters_64bit) + rest;
    lemma_be32_roundtrip(h.sec);
    lemma_be32_roundtrip(h.usec);
    assert(s.subrange(0, 4) =~= be32(h.sec));
    assert(be32_at(s, 0) == be32_at(be32(h.sec), 0));
    assert(s.subrange(4, 8) =~= be32(h.usec));
    assert(be32_at(s, 4) == be32_at(be32(h.usec), 0));
    if counters_64bit {
        lemma_be64_roundtrip(h.packet_count);
        let b = be64(h.packet_count);
        assert(s.subrange(8, 16) =~= b);
        assert(be32_at(s, 8) == be32_at(b, 0));
        assert(be32_at(s, 12) == be32_at(b, 4));
    } else {
        let x = h.packet_count as u32;
        lemma_be32_roundtrip(x);
        assert(s.subrange(8, 12) =~= be32(x));
        assert(be32_at(s, 8) == be32_at(be32(x), 0));
    }
}

/// Advances the UDP sequence counter and returns its new value, as iperf
/// 3.21 does before writing each header: counting starts at 0, so the first
/// datagram carries 1. The counter stops at `u64::MAX`.
pub fn next_udp_packet_count(seq: &mut u64) -> (r: u64)
    ensures
        *final(seq) == old(seq).saturating_add(1),
        r == *final(seq),
{
    *seq = seq.saturating_add(1);
    *seq
}

/// Whether the datagram starts with the client's UDP "connect" bytes.
pub fn is_udp_connect_msg(buf: &[u8]) -> (r: bool)
    ensures
        r == (buf@.len() >= 4 && buf@.subrange(0, 4) == UDP_CONNECT_MSG@),
{
    if buf.len() < 4 {
        return false;
    }
    let m = UDP_CONNECT_MSG;
    let r = buf[0] == m[0] && buf[1] == m[1] && buf[2] == m[2] && buf[3] == m[3];
    assert(r == (buf@.subrange(0, 4) =~= UDP_CONNECT_MSG@));
    r
}

/// Microseconds between two datagrams of `blksize` bytes sent at
/// `bandwidth_bps` bit/s, at least 1; 1 when no rate is set.
pub open spec fn udp_interval(blksize: u32, bandwidth_bps: u64) -> u64 {
    if bandwidth_bps == 0 {
        1
    } else if (blksize * 8000000) / (bandwidth_bps as int) < 1 {
        1
    } else {
        ((blksize * 8000000) / (bandwidth_bps as int)) as u64
    }
}

/// The pause between two datagrams that keeps to the target rate, in
/// microseconds.
pub fn udp_interval_us(blksize: u32, bandwidth_bps: u64) -> (us: u64)
    ensures
        us == udp_interval(blksize, bandwidth_bps),
{
    if bandwidth_bps == 0 {
        return 1;
    }
    let bits: u64 = blksize as u64 * 8000000u64;
    let us = bits / bandwidth_bps;
    if us < 1 {
        1
    } else {
        us
    }
}

/// Length of the datagrams sent on a reverse UDP test: the block length,
/// raised to the header length and capped at `max_len`.
pub fn udp_send_len(blksize: u32, counters_64bit: bool, max_len: usize) -> (n: usize)
    requires
        header_len(counters_64bit) <= max_len,
    ensures
        n == if blksize < header_len(counters_64bit) {
            header_len(counters_64bit) as int
        } else if blksize > max_len {
            max_len as int
        } else {
            blksize as int
        },
{
    let min_len = UdpHeader::encoded_len(counters_64bit);
    if (blksize as u64) < (min_len as u64) {
        min_len
    } else if (blksize as u64) > (max_len as u64) {
        max_len
    } else {
        blksize as usize
    }
}

impl UdpHeader {
    /// The header for a datagram sent `now_us` microseconds into the clock:
    /// whole seconds (modulo 2^32) and the microseconds past them.
    pub fn at_micros(now_us: u64, packet_count: u64) -> (h: Self)
        ensures
            h.sec == (now_us / 1000000) as u32,
            h.usec == now_us % 1000000,
            h.packet_count == packet_count,
    {
        Self {
            sec: #[verifier::truncate] ((now_us / 1000000) as u32),
            usec: (now_us % 1000000) as u32,
            packet_count,
        }
    }
}

/// When to send the next datagram of a paced stream: one interval after
/// the time planned for the last one, or now if that time has already
/// passed. All three are readings of the same clock, in its ticks.
pub fn next_send_time(planned: u64, interval: u64, now: u64) -> (next: u64)
    requires
        planned + interval <= u64::MAX,
    ensures
        next == if planned + interval < now {
            now as int
        } else {
            planned + interval
        },
{
    let next = planned + interval;
    if next < now {
        now
    } else {
        next
    }
}

/// The pacing interval is the block's send time at the target rate,
/// rounded down to whole microseconds and at least 1: `us` microseconds
/// carry no more than the block's bits, and one more would carry more. With
/// no rate set, or a block shorter than one microsecond's worth of bits, it
/// is 1.
pub proof fn law_udp_interval_keeps_rate(blksize: u32, bandwidth_bps: u64)
    ensures
        bandwidth_bps == 0 ==> udp_interval(blksize, bandwidth_bps) == 1,
        bandwidth_bps > 0 && blksize * 8000000 < bandwidth_bps ==> udp_interval(
            blksize,
            bandwidth_bps,
        ) == 1,
        bandwidth_bps > 0 && blksize * 8000000 >= bandwidth_bps ==> ({
            let us = udp_interval(blksize, bandwidth_bps);
            &&& us * bandwidth_bps <= blksize * 8000000
            &&& blksize * 8000000 < (us + 1) * bandwidth_bps
        }),
{
    if bandwidth_bps > 0 {
        let bits: int = blksize * 8000000;
        let bw: int = bandwidth_bps as int;
        let q: int = bits / bw;
        assert(q * bw <= bits && bits < (q + 1) * bw) by (nonlinear_arith)
            requires
                bw > 0,
                bits >= 0,
                q == bits / bw,
        ;
        assert(bits < bw ==> q < 1) by (nonlinear_arith)
            requires
                bw > 0,
                bits >= 0,
                q * bw <= bits,
                bits < (q + 1) * bw,
        ;
        assert(bits >= bw ==> q >= 1) by (nonlinear_arith)
            requires
                bw > 0,
                bits < (q + 1) * bw,
        ;
        assert(q <= bits) by (nonlinear_arith)
            requires
                bw > 0,
                bits >= 0,
                q * bw <= bits,
                bits < (q + 1) * bw,
        ;
        assert(bits <= 0xFFFF_FFFF * 8000000);
    }
}

} // verus!
