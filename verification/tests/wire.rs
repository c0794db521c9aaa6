use iperf3_proto::udp::next_send_time;
use iperf3_proto::udp::udp_send_len;
use iperf3_proto::udp::udp_interval_us;
use iperf3_proto::frame::{decode_json_len, encode_json_frame, FrameError, MAX_PARAMS_JSON};
use iperf3_proto::results::{encode_results_json, StreamStats};
use iperf3_proto::udp::{
    is_udp_connect_msg, next_udp_packet_count, UdpError, UdpHeader, LEGACY_UDP_CONNECT_REPLY,
    UDP_CONNECT_MSG, UDP_CONNECT_REPLY,
};
use iperf3_proto::{proto_version, state, COOKIE_SIZE};

#[test]
fn proto_version_is_nonempty() {
    assert!(!proto_version().is_empty());
}

#[test]
fn proto_version_value() {
    assert_eq!(proto_version(), "0.1.0");
}

#[test]
fn constants_match_iperf() {
    assert_eq!(COOKIE_SIZE, 37);
    assert_eq!(MAX_PARAMS_JSON, 8192);
    assert_eq!(state::PARAM_EXCHANGE, 9);
    assert_eq!(state::CREATE_STREAMS, 10);
    assert_eq!(state::TEST_START, 1);
    assert_eq!(state::TEST_RUNNING, 2);
    assert_eq!(state::TEST_END, 4);
    assert_eq!(state::EXCHANGE_RESULTS, 13);
    assert_eq!(state::DISPLAY_RESULTS, 14);
    assert_eq!(state::IPERF_DONE, 16);
    assert_eq!(state::ACCESS_DENIED, -1);
    assert_eq!(state::SERVER_ERROR, -2);
    assert_eq!(&UDP_CONNECT_MSG, b"9876");
    assert_eq!(&UDP_CONNECT_REPLY, b"6789");
    assert_eq!(LEGACY_UDP_CONNECT_REPLY, 987654321u32.to_le_bytes());
}

#[test]
fn frame_encodes_big_endian_length() {
    assert_eq!(encode_json_frame(b"{}"), vec![0, 0, 0, 2, b'{', b'}']);
    assert_eq!(encode_json_frame(b""), vec![0, 0, 0, 0]);
    let body = vec![b'a'; 0x0102];
    let f = encode_json_frame(&body);
    assert_eq!(&f[..4], &[0, 0, 1, 2]);
    assert_eq!(&f[4..], &body[..]);
}

#[test]
fn frame_length_decodes() {
    assert_eq!(decode_json_len(&[0, 0, 1, 0]), Ok((256, &[][..])));
    assert_eq!(decode_json_len(&[0x12, 0x34, 0x56, 0x78, 9, 8]), Ok((0x1234_5678, &[9u8, 8][..])));
    assert_eq!(decode_json_len(&[0xFF, 0xFF, 0xFF, 0xFF]), Ok((0xFFFF_FFFF, &[][..])));
}

#[test]
fn frame_length_too_short() {
    assert_eq!(decode_json_len(&[]), Err(FrameError));
    assert_eq!(decode_json_len(&[0, 0, 1]), Err(FrameError));
}

#[test]
fn frame_roundtrip() {
    let body = br#"{"tcp":true,"time":10}"#;
    let f = encode_json_frame(body);
    let (len, rest) = decode_json_len(&f).unwrap();
    assert_eq!(len, body.len());
    assert_eq!(rest, &body[..]);
}

#[test]
fn udp_header_lengths() {
    assert_eq!(UdpHeader::encoded_len(false), 12);
    assert_eq!(UdpHeader::encoded_len(true), 16);
}

#[test]
fn udp_header_encode_32bit() {
    let h = UdpHeader { sec: 0x0102_0304, usec: 0x0506_0708, packet_count: 0x1_0A0B_0C0D };
    let mut out = [0xAAu8; 14];
    assert_eq!(h.encode(false, &mut out), Ok(12));
    assert_eq!(out, [1, 2, 3, 4, 5, 6, 7, 8, 0x0A, 0x0B, 0x0C, 0x0D, 0xAA, 0xAA]);
}

#[test]
fn udp_header_encode_64bit() {
    let h = UdpHeader { sec: 1, usec: 2, packet_count: 0x0102_0304_0506_0708 };
    let mut out = [0u8; 16];
    assert_eq!(h.encode(true, &mut out), Ok(16));
    assert_eq!(out, [0, 0, 0, 1, 0, 0, 0, 2, 1, 2, 3, 4, 5, 6, 7, 8]);
}

#[test]
fn udp_header_encode_too_short() {
    let h = UdpHeader { sec: 1, usec: 2, packet_count: 3 };
    let mut out = [7u8; 15];
    assert_eq!(h.encode(true, &mut out), Err(UdpError));
    assert_eq!(out, [7u8; 15]);
    let mut short = [7u8; 11];
    assert_eq!(h.encode(false, &mut short), Err(UdpError));
    assert_eq!(short, [7u8; 11]);
}

#[test]
fn udp_header_decode() {
    let buf = [0, 0, 0, 9, 0, 1, 0, 0, 0, 0, 0, 0, 0, 0, 1, 0, 0xEE];
    assert_eq!(
        UdpHeader::decode(true, &buf),
        Ok(UdpHeader { sec: 9, usec: 65536, packet_count: 256 })
    );
    assert_eq!(
        UdpHeader::decode(false, &buf),
        Ok(UdpHeader { sec: 9, usec: 65536, packet_count: 0 })
    );
    assert_eq!(UdpHeader::decode(true, &buf[..15]), Err(UdpError));
    assert_eq!(UdpHeader::decode(false, &buf[..11]), Err(UdpError));
}

#[test]
fn udp_header_roundtrip() {
    let h = UdpHeader { sec: 1_700_000_000, usec: 999_999, packet_count: 0x1_0000_0005 };
    let mut out = [0u8; 64];
    h.encode(true, &mut out).unwrap();
    assert_eq!(UdpHeader::decode(true, &out), Ok(h));
    h.encode(false, &mut out).unwrap();
    assert_eq!(
        UdpHeader::decode(false, &out),
        Ok(UdpHeader { packet_count: 5, ..h })
    );
}

#[test]
fn udp_packet_count_starts_at_one() {
    let mut seq = 0u64;
    assert_eq!(next_udp_packet_count(&mut seq), 1);
    assert_eq!(next_udp_packet_count(&mut seq), 2);
    assert_eq!(seq, 2);
}

#[test]
fn udp_packet_count_saturates() {
    let mut seq = u64::MAX - 1;
    assert_eq!(next_udp_packet_count(&mut seq), u64::MAX);
    assert_eq!(next_udp_packet_count(&mut seq), u64::MAX);
}

#[test]
fn udp_connect_message() {
    assert!(is_udp_connect_msg(b"9876"));
    assert!(is_udp_connect_msg(b"9876 and more"));
    assert!(!is_udp_connect_msg(b"987"));
    assert!(!is_udp_connect_msg(b"6789"));
    assert!(!is_udp_connect_msg(b""));
}

#[test]
fn results_json_default_stats() {
    let s = StreamStats::default();
    assert_eq!(s, StreamStats { id: 1, bytes: 0, retransmits: -1, errors: 0, packets: 0 });
    let json = encode_results_json(&s, -1);
    assert_eq!(
        String::from_utf8(json).unwrap(),
        "{\"cpu_util_total\":0,\"cpu_util_user\":0,\"cpu_util_system\":0,\"sender_has_retransmits\":-1,\"streams\":[{\"id\":1,\"bytes\":0,\"retransmits\":-1,\"jitter\":0,\"errors\":0,\"packets\":0}]}"
    );
}

#[test]
fn results_json_extreme_values() {
    let s = StreamStats {
        id: i32::MIN,
        bytes: u64::MAX,
        retransmits: i64::MIN,
        errors: i64::MAX,
        packets: 1234567890,
    };
    let json = encode_results_json(&s, 0);
    assert_eq!(
        String::from_utf8(json).unwrap(),
        format!(
            "{{\"cpu_util_total\":0,\"cpu_util_user\":0,\"cpu_util_system\":0,\"sender_has_retransmits\":0,\"streams\":[{{\"id\":{},\"bytes\":{},\"retransmits\":{},\"jitter\":0,\"errors\":{},\"packets\":{}}}]}}",
            i32::MIN,
            u64::MAX,
            i64::MIN,
            i64::MAX,
            1234567890
        )
    );
}

#[test]
fn results_json_is_valid_json_numbers() {
    let s = StreamStats { id: 1, bytes: 10_485_760, retransmits: -1, errors: 3, packets: 913 };
    let json = String::from_utf8(encode_results_json(&s, -1)).unwrap();
    assert!(json.contains("\"bytes\":10485760,"));
    assert!(json.contains("\"errors\":3,"));
    assert!(json.contains("\"packets\":913}"));
}

#[test]
fn udp_pacing_interval() {
    // 1460-byte datagrams at 1 Mibit/s: 1460 * 8e6 / 1048576 = 11138 us.
    assert_eq!(udp_interval_us(1460, 1_048_576), 11138);
    assert_eq!(udp_interval_us(1460, 0), 1);
    assert_eq!(udp_interval_us(16, u64::MAX), 1);
    assert_eq!(udp_interval_us(u32::MAX, 1), u32::MAX as u64 * 8_000_000);
}

#[test]
fn udp_send_length() {
    assert_eq!(udp_send_len(1460, false, 16384), 1460);
    assert_eq!(udp_send_len(4, false, 16384), 12);
    assert_eq!(udp_send_len(4, true, 16384), 16);
    assert_eq!(udp_send_len(65000, true, 16384), 16384);
}

#[test]
fn udp_header_from_clock() {
    let h = UdpHeader::at_micros(5_123_456, 7);
    assert_eq!(h, UdpHeader { sec: 5, usec: 123_456, packet_count: 7 });
    let late = UdpHeader::at_micros((1u64 << 32) * 1_000_000 + 3, 0);
    assert_eq!(late.sec, 0);
    assert_eq!(late.usec, 3);
}

#[test]
fn udp_pacing_next_send_time() {
    assert_eq!(next_send_time(1000, 250, 900), 1250);
    assert_eq!(next_send_time(1000, 250, 1250), 1250);
    assert_eq!(next_send_time(1000, 250, 5000), 5000);
    assert_eq!(next_send_time(u64::MAX - 1, 1, 0), u64::MAX);
}
