//! The smallest results JSON that an iperf 3.21 client reads to the end
//! (the fields of `send_results`).

use vstd::prelude::*;
use vstd::string::StringSliceAdditionalSpecFns;

verus! {

/// Counters of the one stream of a test.
#[derive(Debug, Clone, Copy, PartialEq, Eq, Structural)]
pub struct StreamStats {
    pub id: i32,
    pub bytes: u64,
    pub retransmits: i64,
    pub errors: i64,
    pub packets: i64,
}

/// The counters of a fresh stream: id 1, nothing counted, retransmits
/// unknown (-1).
pub open spec fn initial_stats() -> StreamStats {
    StreamStats { id: 1, bytes: 0, retransmits: -1i64, errors: 0, packets: 0 }
}

impl Default for StreamStats {
    fn default() -> (r: Self)
        ensures
            r == initial_stats(),
    {
        Self { id: 1, bytes: 0, retransmits: -1i64, errors: 0, packets: 0 }
    }
}

/// ASCII decimal digits of `n`, without leading zeros.
pub open spec fn decimal_digits(n: nat) -> Seq<u8>
    decreases n,
{
    if n < 10 {
        seq![(48 + n) as u8]
    } else {
        decimal_digits(n / 10).push((48 + n % 10) as u8)
    }
}

/// ASCII decimal form of `i`, with a leading '-' when it is negative.
pub open spec fn decimal(i: int) -> Seq<u8> {
    if i < 0 {
        seq![45u8] + decimal_digits((-i) as nat)
    } else {
        decimal_digits(i as nat)
    }
}

/// The results object, without length prefix, that the server sends:
/// CPU use 0, jitter 0, and the stream's counters.
pub open spec fn results_json(stats: StreamStats, sender_has_retransmits: i32) -> Seq<u8> {
    "{\"cpu_util_total\":0,\"cpu_util_user\":0,\"cpu_util_system\":0,\"sender_has_retransmits\":".spec_bytes()
        + decimal(sender_has_retransmits as int) + ",\"streams\":[{\"id\":".spec_bytes()
        + decimal(stats.id as int) + ",\"bytes\":".spec_bytes() + decimal(stats.bytes as int)
        + ",\"retransmits\":".spec_bytes() + decimal(stats.retransmits as int)
        + ",\"jitter\":0,\"errors\":".spec_bytes() + decimal(stats.errors as int)
        + ",\"packets\":".spec_bytes() + decimal(stats.packets as int) + "}]}".spec_bytes()
}

/// Appends the decimal digits of `n` to `out`.
fn push_digits(out: &mut Vec<u8>, n: u64)
    ensures
        final(out)@ == old(out)@ + decimal_digits(n as nat),
    decreases n,
{
    if n >= 10 {
        push_digits(out, n / 10);
    }
    out.push((48 + n % 10) as u8);
    assert(final(out)@ =~= old(out)@ + decimal_digits(n as nat));
}

/// Appends the decimal form of `i` to `out`.
fn push_decimal(out: &mut Vec<u8>, i: i64)
    ensures
        final(out)@ == old(out)@ + decimal(i as int),
{
    if i < 0 {
        out.push(45u8);
        let magnitude: u64 = ((-(i + 1)) as u64) + 1;
        push_digits(out, magnitude);
        assert(final(out)@ =~= old(out)@ + decimal(i as int));
    } else {
        push_digits(out, i as u64);
    }
}

/// Appends the bytes of `s` to `out`.
fn push_str(out: &mut Vec<u8>, s: &str)
    ensures
        final(out)@ == old(out)@ + s.spec_bytes(),
{
    out.extend_from_slice(s.as_bytes());
}

/// The results JSON object, without length prefix.
/// `sender_has_retransmits` is -1 on the receiving side.
pub fn encode_results_json(stats: &StreamStats, sender_has_retransmits: i32) -> (out: Vec<u8>)
    ensures
        out@ == results_json(*stats, sender_has_retransmits),
{
    let mut out: Vec<u8> = Vec::new();
    push_str(
        &mut out,
        "{\"cpu_util_total\":0,\"cpu_util_user\":0,\"cpu_util_system\":0,\"sender_has_retransmits\":",
    );
    push_decimal(&mut out, sender_has_retransmits as i64);
    push_str(&mut out, ",\"streams\":[{\"id\":");
    push_decimal(&mut out, stats.id as i64);
    push_str(&mut out, ",\"bytes\":");
    push_digits(&mut out, stats.bytes);
    push_str(&mut out, ",\"retransmits\":");
    push_decimal(&mut out, stats.retransmits);
    push_str(&mut out, ",\"jitter\":0,\"errors\":");
    push_decimal(&mut out, stats.errors);
    push_str(&mut out, ",\"packets\":");
    push_decimal(&mut out, stats.packets);
    push_str(&mut out, "}]}");
    assert(out@ =~= results_json(*stats, sender_has_retransmits));
    out
}

} // verus!
