use iperf3_proto::session::data_refusal_reply;
use iperf3_proto::session::ctrl_read_len_ok;
use iperf3_proto::params::{JsonField, JsonNumber, ParamsDoc, ParamsError, TestParams, Transport};
use iperf3_proto::results::{encode_results_json, StreamStats};
use iperf3_proto::frame::encode_json_frame;
use iperf3_proto::session::{Io, Server, Session, SessionError, Start, IEPROTOCOL, IERECVPARAMS};
use iperf3_proto::COOKIE_SIZE;

fn empty_doc() -> ParamsDoc {
    ParamsDoc {
        sctp: JsonField::Absent,
        bidirectional: JsonField::Absent,
        bidir: JsonField::Absent,
        parallel: JsonField::Absent,
        udp: JsonField::Absent,
        time: JsonField::Absent,
        reverse: JsonField::Absent,
        udp_counters_64bit: JsonField::Absent,
        len: JsonField::Absent,
        bandwidth: JsonField::Absent,
    }
}

fn uint(n: u64) -> JsonField {
    JsonField::Number(JsonNumber::UInt(n))
}

fn cookie() -> Vec<u8> {
    (0..COOKIE_SIZE as u8).map(|i| b'a' + i % 26).collect()
}

fn new_session() -> Session {
    let mut server = Server::new();
    match server.start_session() {
        Start::Accepted(s) => s,
        Start::AccessDenied(_) => panic!("idle server refused"),
    }
}

/// Drives a session to the point where the parameter body is expected.
fn session_at_params(body_len: usize) -> Session {
    let mut s = new_session();
    assert_eq!(s.poll(), Io::ReadCtrl(COOKIE_SIZE));
    s.feed_ctrl(&cookie()).unwrap();
    assert_eq!(s.poll(), Io::WriteCtrl(vec![9]));
    assert_eq!(s.poll(), Io::ReadCtrl(4));
    s.feed_ctrl(&(body_len as u32).to_be_bytes()).unwrap();
    assert_eq!(s.poll(), Io::ReadCtrl(body_len));
    s
}

/// Feeds the parameter body and hands in what it holds.
fn give_params(s: &mut Session, body: &[u8], doc: Option<&ParamsDoc>) {
    s.feed_ctrl(body).unwrap();
    assert_eq!(s.poll(), Io::ParseParams(body.to_vec()));
    s.feed_params(doc).unwrap();
}

fn session_running(doc: ParamsDoc) -> Session {
    let body = b"{\"tcp\":true}";
    let mut s = session_at_params(body.len());
    give_params(&mut s, body, Some(&doc));
    assert_eq!(s.poll(), Io::WriteCtrl(vec![10]));
    s.data_ready(&cookie()).unwrap();
    assert_eq!(s.poll(), Io::WriteCtrl(vec![1, 2]));
    assert_eq!(s.poll(), Io::Pump);
    s
}

#[test]
fn params_not_an_object() {
    assert_eq!(TestParams::from_doc(None), Err(ParamsError::InvalidJson));
}

#[test]
fn params_defaults_tcp() {
    assert_eq!(
        TestParams::from_doc(Some(&empty_doc())),
        Ok(TestParams {
            transport: Transport::Tcp,
            reverse: false,
            time_secs: 10,
            parallel: 1,
            blksize: 131072,
            bandwidth_bps: 0,
            udp_counters_64bit: false,
        })
    );
}

#[test]
fn params_defaults_udp() {
    let doc = ParamsDoc { udp: JsonField::Bool(true), ..empty_doc() };
    assert_eq!(
        TestParams::from_doc(Some(&doc)),
        Ok(TestParams {
            transport: Transport::Udp,
            reverse: false,
            time_secs: 10,
            parallel: 1,
            blksize: 1460,
            bandwidth_bps: 1048576,
            udp_counters_64bit: false,
        })
    );
}

#[test]
fn params_given_values() {
    let doc = ParamsDoc {
        udp: JsonField::Bool(true),
        reverse: JsonField::Bool(true),
        time: uint(3),
        parallel: uint(1),
        len: uint(1200),
        bandwidth: uint(5_000_000),
        udp_counters_64bit: uint(1),
        ..empty_doc()
    };
    assert_eq!(
        TestParams::from_doc(Some(&doc)),
        Ok(TestParams {
            transport: Transport::Udp,
            reverse: true,
            time_secs: 3,
            parallel: 1,
            blksize: 1200,
            bandwidth_bps: 5_000_000,
            udp_counters_64bit: true,
        })
    );
}

#[test]
fn params_zero_len_and_rate_take_defaults() {
    let doc = ParamsDoc { len: uint(0), bandwidth: uint(0), ..empty_doc() };
    let p = TestParams::from_doc(Some(&doc)).unwrap();
    assert_eq!(p.blksize, 131072);
    assert_eq!(p.bandwidth_bps, 0);
}

#[test]
fn params_refusals() {
    let sctp = ParamsDoc { sctp: JsonField::Bool(true), ..empty_doc() };
    assert_eq!(TestParams::from_doc(Some(&sctp)), Err(ParamsError::Sctp));
    let bidir = ParamsDoc { bidir: JsonField::Bool(true), ..empty_doc() };
    assert_eq!(TestParams::from_doc(Some(&bidir)), Err(ParamsError::Bidir));
    let bidirectional = ParamsDoc { bidirectional: JsonField::Bool(true), ..empty_doc() };
    assert_eq!(TestParams::from_doc(Some(&bidirectional)), Err(ParamsError::Bidir));
    let parallel = ParamsDoc { parallel: uint(2), ..empty_doc() };
    assert_eq!(TestParams::from_doc(Some(&parallel)), Err(ParamsError::Parallel));
    let zero = ParamsDoc { parallel: uint(0), ..empty_doc() };
    assert_eq!(TestParams::from_doc(Some(&zero)), Err(ParamsError::Parallel));
    let small = ParamsDoc { udp: JsonField::Bool(true), len: uint(15), ..empty_doc() };
    assert_eq!(TestParams::from_doc(Some(&small)), Err(ParamsError::UdpTooSmall));
    let ok = ParamsDoc { udp: JsonField::Bool(true), len: uint(16), ..empty_doc() };
    assert_eq!(TestParams::from_doc(Some(&ok)).unwrap().blksize, 16);
    let tcp_small = ParamsDoc { len: uint(1), ..empty_doc() };
    assert_eq!(TestParams::from_doc(Some(&tcp_small)).unwrap().blksize, 1);
}

#[test]
fn params_refusal_order() {
    let doc = ParamsDoc {
        sctp: JsonField::Bool(true),
        bidir: JsonField::Bool(true),
        parallel: uint(4),
        ..empty_doc()
    };
    assert_eq!(TestParams::from_doc(Some(&doc)), Err(ParamsError::Sctp));
    let doc = ParamsDoc { bidir: JsonField::Bool(true), parallel: uint(4), ..empty_doc() };
    assert_eq!(TestParams::from_doc(Some(&doc)), Err(ParamsError::Bidir));
}

#[test]
fn params_values_that_do_not_count() {
    // Non-true booleans, out-of-range or negative numbers and non-numbers read as absent.
    let doc = ParamsDoc {
        sctp: JsonField::Bool(false),
        udp: JsonField::Other,
        parallel: uint(1u64 << 40),
        time: JsonField::Number(JsonNumber::NegInt(-5)),
        reverse: uint(1),
        len: JsonField::Number(JsonNumber::Float { non_negative: false, truncated: 0 }),
        ..empty_doc()
    };
    let p = TestParams::from_doc(Some(&doc)).unwrap();
    assert_eq!(p.transport, Transport::Tcp);
    assert_eq!(p.parallel, 1);
    assert_eq!(p.time_secs, 10);
    assert!(!p.reverse);
    assert_eq!(p.blksize, 131072);
}

#[test]
fn params_fractional_numbers() {
    let doc = ParamsDoc {
        time: JsonField::Number(JsonNumber::Float { non_negative: true, truncated: 2 }),
        parallel: JsonField::Number(JsonNumber::Float { non_negative: true, truncated: 1 }),
        ..empty_doc()
    };
    let p = TestParams::from_doc(Some(&doc)).unwrap();
    assert_eq!(p.time_secs, 2);
    assert_eq!(p.parallel, 1);
}

#[test]
fn server_one_test_at_a_time() {
    let mut server = Server::default();
    assert!(!server.is_busy());
    let first = match server.start_session() {
        Start::Accepted(s) => s,
        Start::AccessDenied(_) => panic!("idle server refused"),
    };
    assert!(server.is_busy());
    match server.start_session() {
        Start::AccessDenied(b) => assert_eq!(b, [0xFF]),
        Start::Accepted(_) => panic!("second test admitted"),
    }
    server.end_session(first);
    assert!(!server.is_busy());
    assert!(matches!(server.start_session(), Start::Accepted(_)));
}

#[test]
fn new_session_state() {
    let s = new_session();
    assert_eq!(s.params(), None);
    assert_eq!(s.cookie(), &[0u8; COOKIE_SIZE]);
    assert_eq!(s.stats(), StreamStats::default());
}

#[test]
fn full_tcp_test() {
    let mut s = session_running(empty_doc());
    assert_eq!(s.cookie().as_slice(), &cookie()[..]);
    s.add_bytes(1000);
    s.add_bytes(24);
    s.feed_ctrl(&[4]).unwrap();
    assert_eq!(s.poll(), Io::WriteCtrl(vec![13]));
    assert_eq!(s.poll(), Io::ReadCtrl(4));
    s.feed_ctrl(&[0, 0, 0, 3]).unwrap();
    assert_eq!(s.poll(), Io::ReadCtrl(3));
    s.feed_ctrl(b"{ }").unwrap();
    let stats = StreamStats { bytes: 1024, ..StreamStats::default() };
    let mut expected = encode_json_frame(&encode_results_json(&stats, -1));
    expected.push(14);
    assert_eq!(s.poll(), Io::WriteCtrl(expected));
    assert_eq!(s.poll(), Io::ReadCtrl(1));
    s.feed_ctrl(&[16]).unwrap();
    assert_eq!(s.poll(), Io::Done);
    assert_eq!(s.poll(), Io::Done);
}

#[test]
fn reverse_test_reports_sender_retransmits() {
    let doc = ParamsDoc { reverse: JsonField::Bool(true), ..empty_doc() };
    let mut s = session_running(doc);
    s.end_test().unwrap();
    assert_eq!(s.poll(), Io::WriteCtrl(vec![13]));
    s.feed_ctrl(&[0, 0, 0, 2]).unwrap();
    s.feed_ctrl(b"{}").unwrap();
    let mut expected = encode_json_frame(&encode_results_json(&StreamStats::default(), 0));
    expected.push(14);
    assert_eq!(s.poll(), Io::WriteCtrl(expected));
}

#[test]
fn udp_data_channel() {
    let doc = ParamsDoc { udp: JsonField::Bool(true), ..empty_doc() };
    let body = b"{\"udp\":true}";
    let mut s = session_at_params(body.len());
    give_params(&mut s, body, Some(&doc));
    assert_eq!(s.poll(), Io::WriteCtrl(vec![10]));
    let mut c = [0u8; COOKIE_SIZE];
    c.copy_from_slice(&cookie());
    assert_eq!(s.poll(), Io::NeedDataChannel { cookie: c, transport: Transport::Udp });
    assert_eq!(s.udp_connect_reply(b"9876"), Ok(*b"6789"));
    assert_eq!(s.udp_connect_reply(b"1234"), Err(SessionError::UdpHello));
}

#[test]
fn parallel_streams_refused_with_protocol_error() {
    let body = b"{\"parallel\":2}";
    let mut s = session_at_params(body.len());
    let doc = ParamsDoc { parallel: uint(2), ..empty_doc() };
    give_params(&mut s, body, Some(&doc));
    assert_eq!(IEPROTOCOL, 131);
    assert_eq!(s.poll(), Io::WriteCtrl(vec![0xFE, 0, 0, 0, 131, 0, 0, 0, 0]));
    assert_eq!(s.poll(), Io::Done);
    assert_eq!(s.params(), None);
}

#[test]
fn unreadable_params_refused_with_recv_error() {
    let body = b"not json";
    let mut s = session_at_params(body.len());
    give_params(&mut s, body, None);
    assert_eq!(IERECVPARAMS, 114);
    assert_eq!(s.poll(), Io::WriteCtrl(vec![0xFE, 0, 0, 0, 114, 0, 0, 0, 0]));
    assert_eq!(s.poll(), Io::Done);
}

#[test]
fn cookie_of_wrong_length() {
    let mut s = new_session();
    assert_eq!(s.feed_ctrl(&[1, 2, 3]), Err(SessionError::CookieLen));
    assert_eq!(s.poll(), Io::ReadCtrl(COOKIE_SIZE));
}

#[test]
fn bad_length_fields() {
    let mut s = new_session();
    s.feed_ctrl(&cookie()).unwrap();
    assert_eq!(s.feed_ctrl(&[0, 0, 0, 0]), Err(SessionError::Frame));
    assert_eq!(s.feed_ctrl(&[0, 0, 0x20, 1]), Err(SessionError::Frame));
    assert_eq!(s.feed_ctrl(&[0, 0, 1]), Err(SessionError::Frame));
    assert_eq!(s.feed_ctrl(&[0, 0, 0, 1, 0]), Err(SessionError::Frame));
    s.feed_ctrl(&[0, 0, 0x20, 0]).unwrap();
    assert_eq!(s.poll(), Io::WriteCtrl(vec![9]));
    assert_eq!(s.poll(), Io::ReadCtrl(8192));
}

#[test]
fn params_body_of_wrong_length() {
    let mut s = session_at_params(5);
    assert_eq!(s.feed_ctrl(b"{}"), Err(SessionError::Frame));
    assert_eq!(s.feed_ctrl(b"{    }"), Err(SessionError::Frame));
    assert_eq!(s.feed_params(Some(&empty_doc())), Err(SessionError::Unexpected));
    assert_eq!(s.poll(), Io::ReadCtrl(5));
    s.feed_ctrl(b"{   }").unwrap();
    assert_eq!(s.poll(), Io::ParseParams(b"{   }".to_vec()));
    assert_eq!(s.feed_ctrl(b"{   }"), Err(SessionError::Unexpected));
}

#[test]
fn input_out_of_phase() {
    let mut s = new_session();
    assert_eq!(s.data_ready(&cookie()), Err(SessionError::Unexpected));
    assert_eq!(s.end_test(), Err(SessionError::Unexpected));
    assert_eq!(s.feed_params(Some(&empty_doc())), Err(SessionError::Unexpected));
}

#[test]
fn data_channel_with_other_cookie() {
    let body = b"{}";
    let mut s = session_at_params(body.len());
    give_params(&mut s, body, Some(&empty_doc()));
    s.poll();
    let mut other = cookie();
    other[0] ^= 1;
    assert_eq!(s.data_ready(&other), Err(SessionError::CookieMismatch));
    assert_eq!(s.data_ready(&cookie()[..36]), Err(SessionError::CookieMismatch));
    assert!(matches!(s.poll(), Io::NeedDataChannel { transport: Transport::Tcp, .. }));
}

#[test]
fn wrong_state_bytes() {
    let mut s = session_running(empty_doc());
    assert_eq!(s.feed_ctrl(&[16]), Err(SessionError::Unexpected));
    assert_eq!(s.feed_ctrl(&[4, 4]), Err(SessionError::Frame));
    s.feed_ctrl(&[4]).unwrap();
    s.feed_ctrl(&[0, 0, 0, 1]).unwrap();
    s.feed_ctrl(b"x").unwrap();
    s.poll();
    assert_eq!(s.feed_ctrl(&[4]), Err(SessionError::Unexpected));
    s.feed_ctrl(&[16]).unwrap();
    assert_eq!(s.feed_ctrl(&[16]), Err(SessionError::Unexpected));
}

#[test]
fn add_bytes_saturates() {
    let mut s = session_running(empty_doc());
    s.add_bytes(u64::MAX - 1);
    s.add_bytes(5);
    assert_eq!(s.stats().bytes, u64::MAX);
}

fn datagram(seq: u64) -> Vec<u8> {
    let mut d = vec![0u8; 100];
    let h = iperf3_proto::UdpHeader { sec: 0, usec: 0, packet_count: seq };
    h.encode(false, &mut d).unwrap();
    d
}

#[test]
fn udp_loss_accounting() {
    let doc = ParamsDoc { udp: JsonField::Bool(true), ..empty_doc() };
    let mut s = session_running(doc);
    s.note_udp_datagram(&datagram(1));
    s.note_udp_datagram(&datagram(2));
    assert_eq!(s.stats().packets, 2);
    assert_eq!(s.stats().errors, 0);
    s.note_udp_datagram(&datagram(5));
    assert_eq!(s.stats().packets, 5);
    assert_eq!(s.stats().errors, 2);
    s.note_udp_datagram(&datagram(3));
    assert_eq!(s.stats().packets, 5);
    assert_eq!(s.stats().errors, 1);
    s.note_udp_datagram(&[1, 2, 3]);
    assert_eq!(s.stats().packets, 5);
    assert_eq!(s.stats().bytes, 403);
}

#[test]
fn tcp_datagrams_only_count_bytes() {
    let mut s = session_running(empty_doc());
    s.note_udp_datagram(&datagram(7));
    assert_eq!(s.stats().bytes, 100);
    assert_eq!(s.stats().packets, 0);
}

#[test]
fn udp_64bit_counters() {
    let doc = ParamsDoc {
        udp: JsonField::Bool(true),
        udp_counters_64bit: uint(1),
        ..empty_doc()
    };
    let mut s = session_running(doc);
    let mut d = vec![0u8; 16];
    iperf3_proto::UdpHeader { sec: 0, usec: 0, packet_count: 1 << 33 }.encode(true, &mut d).unwrap();
    s.note_udp_datagram(&d);
    assert_eq!(s.stats().packets, 1 << 33);
    assert_eq!(s.stats().errors, (1 << 33) - 1);
}

#[test]
fn control_read_lengths() {
    assert!(!ctrl_read_len_ok(0));
    assert!(ctrl_read_len_ok(1));
    assert!(ctrl_read_len_ok(65536));
    assert!(!ctrl_read_len_ok(65537));
}

#[test]
fn refused_test_then_next_accepted() {
    let mut server = Server::new();
    let mut s = match server.start_session() {
        Start::Accepted(s) => s,
        Start::AccessDenied(_) => panic!("idle server refused"),
    };
    s.feed_ctrl(&cookie()).unwrap();
    s.feed_ctrl(&[0, 0, 0, 2]).unwrap();
    let doc = ParamsDoc { parallel: uint(2), ..empty_doc() };
    assert_eq!(s.feed_ctrl(b"{}"), Ok(()));
    s.feed_params(Some(&doc)).unwrap();
    assert_eq!(s.poll(), Io::WriteCtrl(vec![9, 0xFE, 0, 0, 0, 131, 0, 0, 0, 0]));
    assert_eq!(s.poll(), Io::Done);
    server.end_session(s);
    let mut next = match server.start_session() {
        Start::Accepted(s) => s,
        Start::AccessDenied(_) => panic!("daemon did not accept the next test"),
    };
    assert_eq!(next.poll(), Io::ReadCtrl(COOKIE_SIZE));
}

#[test]
fn queued_bytes_are_handed_out_once() {
    let mut s = new_session();
    s.feed_ctrl(&cookie()).unwrap();
    s.feed_ctrl(&[0, 0, 0, 9]).unwrap();
    assert_eq!(s.poll(), Io::WriteCtrl(vec![9]));
    assert_eq!(s.poll(), Io::ReadCtrl(9));
    assert_eq!(s.poll(), Io::ReadCtrl(9));
}

#[test]
fn data_channel_refusal_replies() {
    assert_eq!(data_refusal_reply(SessionError::CookieMismatch), Some([0xFF]));
    assert_eq!(data_refusal_reply(SessionError::Unexpected), None);
    assert_eq!(data_refusal_reply(SessionError::Frame), None);
}

#[test]
fn cookie_survives_later_calls() {
    let mut s = session_running(empty_doc());
    let _ = s.feed_ctrl(&[0u8; COOKIE_SIZE]);
    let _ = s.data_ready(&[1u8; COOKIE_SIZE]);
    s.feed_ctrl(&[4]).unwrap();
    assert_eq!(s.cookie().as_slice(), &cookie()[..]);
}

#[test]
fn parameter_body_through_feed_ctrl() {
    let Start::Accepted(mut s) = Server::new().start_session() else {
        panic!("idle server refused");
    };
    s.feed_ctrl(&[7u8; 37]).unwrap();
    s.poll();
    s.feed_ctrl(&[0, 0, 0, 14]).unwrap();
    assert_eq!(s.feed_ctrl(b"{\"parallel\":2"), Err(SessionError::Frame));
    assert_eq!(s.feed_ctrl(br#"{"parallel":2}"#), Ok(()));
    assert_eq!(s.params(), None);
    assert_eq!(s.poll(), Io::ParseParams(br#"{"parallel":2}"#.to_vec()));
    let doc = ParamsDoc { parallel: uint(2), ..empty_doc() };
    s.feed_params(Some(&doc)).unwrap();
    assert_eq!(s.params(), None);
    assert_eq!(s.poll(), Io::WriteCtrl(vec![0xFE, 0, 0, 0, 131, 0, 0, 0, 0]));
    assert_eq!(s.poll(), Io::Done);
}
