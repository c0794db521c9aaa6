//! The control state machine of an iperf3 server subset: bytes in, I/O
//! commands out. It never touches a socket.

use vstd::prelude::*;
use crate::COOKIE_SIZE;
use crate::be::{be32, be32_at, push_be32, read_be32};
use crate::frame::{MAX_PARAMS_JSON, encode_json_frame, json_frame};
use crate::history::{Event, lemma_step_unfold, step, written};
use crate::params::{ParamsDoc, ParamsError, TestParams, Transport, params_from_doc};
use crate::results::{StreamStats, encode_results_json, initial_stats, results_json};
use crate::state::{
    ACCESS_DENIED, CREATE_STREAMS, DISPLAY_RESULTS, EXCHANGE_RESULTS, IPERF_DONE, PARAM_EXCHANGE,
    SERVER_ERROR, TEST_END, TEST_RUNNING, TEST_START, state_byte,
};
use crate::udp::{UDP_CONNECT_MSG, UDP_CONNECT_REPLY, UdpHeader, decode_header, is_udp_connect_msg};

verus! {

/// iperf 3.21 `IEPROTOCOL`: protocol or parameters not supported.
pub const IEPROTOCOL: i32 = 131;

/// iperf 3.21 `IERECVPARAMS`: the parameters could not be read.
pub const IERECVPARAMS: i32 = 114;

/// Upper bound on the client's results JSON.
pub const MAX_RESULTS_JSON: usize = 65536;

/// What the caller is to do next.
#[derive(Debug, Clone, PartialEq, Eq)]
pub enum Io {
    /// Write these bytes to the control connection.
    WriteCtrl(Vec<u8>),
    /// Read exactly this many bytes from the control connection and feed them.
    ReadCtrl(usize),
    /// Read what this parameter JSON holds and hand it to
    /// [`Session::feed_params`].
    ParseParams(Vec<u8>),
    /// Open the data channel; the client opens it with this cookie.
    NeedDataChannel { cookie: [u8; COOKIE_SIZE], transport: Transport },
    /// Move test data until the control connection says the test ended.
    Pump,
    /// The session is over.
    Done,
}

/// Why the session refused an input.
#[derive(Debug, Clone, Copy, PartialEq, Eq, Structural)]
pub enum SessionError {
    /// The cookie does not have `COOKIE_SIZE` bytes.
    CookieLen,
    /// A length field or a body of the wrong size.
    Frame,
    /// Input that the current phase does not expect.
    Unexpected,
    /// The data channel sent another cookie.
    CookieMismatch,
    /// The first UDP datagram is not the connect message.
    UdpHello,
}

/// Where a session stands.
#[derive(Debug, Clone, Copy, PartialEq, Eq, Structural)]
pub enum Phase {
    WaitCookie,
    WaitJsonLen,
    WaitJsonBody { len: usize },
    ParseParams,
    NeedData,
    Pump,
    WaitClientLen,
    WaitClientBody { len: usize },
    WaitDone,
    Done,
}

/// The outcome of a new control connection.
#[derive(Debug)]
pub enum Start {
    /// A session for the new test.
    Accepted(Session),
    /// A test is running: write this byte and close the connection.
    AccessDenied([u8; 1]),
}

/// Admits one test at a time.
pub struct Server {
    busy: bool,
}

/// A session as a value: its phase, the bytes queued for the control
/// connection, the cookie, the accepted parameters and the counters.
pub struct SessionState {
    pub phase: Phase,
    pub out: Seq<u8>,
    pub cookie: Seq<u8>,
    pub params_body: Seq<u8>,
    pub params: Option<TestParams>,
    pub stats: StreamStats,
}

/// The control side of one test.
#[derive(Debug)]
pub struct Session {
    phase: Phase,
    out: Vec<u8>,
    cookie: [u8; COOKIE_SIZE],
    params_body: Vec<u8>,
    params: Option<TestParams>,
    stats: StreamStats,
}

impl View for Server {
    type V = bool;

    /// Whether a test is running.
    closed spec fn view(&self) -> bool {
        self.busy
    }
}

impl View for Session {
    type V = SessionState;

    closed spec fn view(&self) -> SessionState {
        SessionState {
            phase: self.phase,
            out: self.out@,
            cookie: self.cookie@,
            params_body: self.params_body@,
            params: self.params,
            stats: self.stats,
        }
    }
}

/// A new session: waiting for the cookie, nothing queued, zero cookie, no
/// parameters, fresh counters.
pub open spec fn initial_session() -> SessionState {
    SessionState {
        phase: Phase::WaitCookie,
        out: Seq::empty(),
        cookie: Seq::new(COOKIE_SIZE as nat, |i: int| 0u8),
        params_body: Seq::empty(),
        params: None,
        stats: initial_stats(),
    }
}

/// Whether a new control connection is admitted.
pub open spec fn admits(busy: bool) -> bool {
    !busy
}

/// What happens to a server: a control connection asks to start a test,
/// or a session ends.
pub enum ServerEvent {
    Started,
    Ended,
}

/// Whether the server is busy after an event: a start leaves it busy (the
/// new test, or the one that was running), an end leaves it idle.
pub open spec fn server_step(busy: bool, e: ServerEvent) -> bool {
    match e {
        ServerEvent::Started => true,
        ServerEvent::Ended => false,
    }
}

/// A JSON length field: exactly four bytes whose big-endian value is from 1
/// to `max`.
pub open spec fn json_len_field(data: Seq<u8>, max: usize) -> Result<usize, SessionError> {
    if data.len() == 4 && 0 < be32_at(data, 0) && be32_at(data, 0) <= max {
        Ok(be32_at(data, 0) as usize)
    } else {
        Err(SessionError::Frame)
    }
}

/// `sender_has_retransmits` of the server's results: 0 when the server sent
/// (reverse), -1 when it received.
pub open spec fn sender_has_retransmits(params: Option<TestParams>) -> i32 {
    match params {
        Some(p) => if p.reverse {
            0i32
        } else {
            -1i32
        },
        None => -1i32,
    }
}

/// The iperf error number reported for refused parameters.
pub open spec fn server_error_code(e: ParamsError) -> i32 {
    match e {
        ParamsError::InvalidJson => IERECVPARAMS,
        _ => IEPROTOCOL,
    }
}

/// SERVER_ERROR, the error number and errno 0, both big-endian.
pub open spec fn server_error_bytes(e: ParamsError) -> Seq<u8> {
    seq![state_byte(SERVER_ERROR)] + be32(server_error_code(e) as u32) + be32(0u32)
}

/// EXCHANGE_RESULTS is queued and the client's results length is awaited.
pub open spec fn exchange_results(s: SessionState) -> SessionState {
    SessionState {
        phase: Phase::WaitClientLen,
        out: s.out.push(state_byte(EXCHANGE_RESULTS)),
        ..s
    }
}

/// What feeding control bytes does in each phase. The parameter body is
/// kept for the caller to read what it holds (see [`params_step`]).
pub open spec fn ctrl_step(s: SessionState, data: Seq<u8>) -> Result<SessionState, SessionError> {
    match s.phase {
        Phase::WaitCookie => if data.len() != COOKIE_SIZE {
            Err(SessionError::CookieLen)
        } else {
            Ok(
                SessionState {
                    phase: Phase::WaitJsonLen,
                    out: s.out.push(state_byte(PARAM_EXCHANGE)),
                    cookie: data,
                    ..s
                },
            )
        },
        Phase::WaitJsonLen => match json_len_field(data, MAX_PARAMS_JSON) {
            Ok(len) => Ok(SessionState { phase: Phase::WaitJsonBody { len }, ..s }),
            Err(e) => Err(e),
        },
        Phase::WaitJsonBody { len } => if data.len() != len {
            Err(SessionError::Frame)
        } else {
            Ok(SessionState { phase: Phase::ParseParams, params_body: data, ..s })
        },
        Phase::Pump => if data.len() != 1 {
            Err(SessionError::Frame)
        } else if #[verifier::truncate] (data[0] as i8) != TEST_END {
            Err(SessionError::Unexpected)
        } else {
            Ok(exchange_results(s))
        },
        Phase::WaitClientLen => match json_len_field(data, MAX_RESULTS_JSON) {
            Ok(len) => Ok(SessionState { phase: Phase::WaitClientBody { len }, ..s }),
            Err(e) => Err(e),
        },
        Phase::WaitClientBody { len } => if data.len() != len {
            Err(SessionError::Frame)
        } else {
            Ok(
                SessionState {
                    phase: Phase::WaitDone,
                    out: s.out + json_frame(
                        results_json(s.stats, sender_has_retransmits(s.params)),
                    ).push(state_byte(DISPLAY_RESULTS)),
                    ..s
                },
            )
        },
        Phase::WaitDone => if data.len() != 1 {
            Err(SessionError::Frame)
        } else if #[verifier::truncate] (data[0] as i8) != IPERF_DONE {
            Err(SessionError::Unexpected)
        } else {
            Ok(SessionState { phase: Phase::Done, ..s })
        },
        _ => Err(SessionError::Unexpected),
    }
}

/// What handing in the reading of the parameter body does: the parameters
/// are accepted and CREATE_STREAMS queued, or they are refused, SERVER_ERROR
/// queued and the session ends.
pub open spec fn params_step(s: SessionState, doc: Option<ParamsDoc>) -> Result<
    SessionState,
    SessionError,
> {
    match s.phase {
        Phase::ParseParams => {
            match params_from_doc(doc) {
                Ok(p) => Ok(
                    SessionState {
                        phase: Phase::NeedData,
                        out: s.out.push(state_byte(CREATE_STREAMS)),
                        params: Some(p),
                        ..s
                    },
                ),
                Err(e) => Ok(
                    SessionState { phase: Phase::Done, out: s.out + server_error_bytes(e), ..s },
                ),
            }
        },
        _ => Err(SessionError::Unexpected),
    }
}

/// The data channel is up: with the session's own cookie, TEST_START and
/// TEST_RUNNING are queued and the test runs.
pub open spec fn data_ready_step(s: SessionState, cookie: Seq<u8>) -> Result<
    SessionState,
    SessionError,
> {
    if s.phase != Phase::NeedData {
        Err(SessionError::Unexpected)
    } else if cookie != s.cookie {
        Err(SessionError::CookieMismatch)
    } else {
        Ok(
            SessionState {
                phase: Phase::Pump,
                out: s.out.push(state_byte(TEST_START)).push(state_byte(TEST_RUNNING)),
                ..s
            },
        )
    }
}

/// The test ended without TEST_END from the client (reverse time is up, or
/// the peer closed): as if TEST_END had come.
pub open spec fn end_test_step(s: SessionState) -> Result<SessionState, SessionError> {
    if s.phase != Phase::Pump {
        Err(SessionError::Unexpected)
    } else {
        Ok(exchange_results(s))
    }
}

/// `a + b`, held to the range of `i64`.
pub open spec fn saturating_add_i64_spec(a: i64, b: i64) -> i64 {
    if a + b > i64::MAX {
        i64::MAX
    } else if a + b < i64::MIN {
        i64::MIN
    } else {
        (a + b) as i64
    }
}

/// Loss accounting for one UDP header, as iperf 3.21 does it: a sequence
/// number past the highest seen becomes the highest, and the numbers skipped
/// count as lost; an older one (out of order) takes one back from the lost
/// count, if any.
pub open spec fn udp_loss_step(stats: StreamStats, h: UdpHeader) -> StreamStats {
    let prev = stats.packets as u64;
    let next = prev.saturating_add(1);
    if h.packet_count >= next {
        StreamStats {
            errors: if h.packet_count > next {
                saturating_add_i64_spec(stats.errors, (h.packet_count - 1 - prev) as i64)
            } else {
                stats.errors
            },
            packets: h.packet_count as i64,
            ..stats
        }
    } else if stats.errors > 0 {
        StreamStats { errors: (stats.errors - 1) as i64, ..stats }
    } else {
        stats
    }
}

/// The counters after one received datagram: its length is added to the
/// bytes; on a UDP test with a readable header, losses are counted.
pub open spec fn datagram_stats(s: SessionState, payload: Seq<u8>) -> StreamStats {
    let counted = StreamStats { bytes: s.stats.bytes.saturating_add(payload.len() as u64), ..s.stats };
    match s.params {
        Some(p) => if p.transport == Transport::Udp {
            match decode_header(p.udp_counters_64bit, payload) {
                Ok(h) => udp_loss_step(counted, h),
                Err(_) => counted,
            }
        } else {
            counted
        },
        None => counted,
    }
}

/// `n` more bytes of test data counted, stopping at `u64::MAX`.
pub open spec fn add_bytes_step(s: SessionState, n: u64) -> SessionState {
    SessionState { stats: StreamStats { bytes: s.stats.bytes.saturating_add(n), ..s.stats }, ..s }
}

/// The command that a session with nothing queued hands out in its phase.
pub open spec fn phase_io(io: Io, s: SessionState) -> bool {
    match s.phase {
        Phase::WaitCookie => io == Io::ReadCtrl(COOKIE_SIZE),
        Phase::WaitJsonLen => io == Io::ReadCtrl(4),
        Phase::WaitClientLen => io == Io::ReadCtrl(4),
        Phase::WaitJsonBody { len } => io == Io::ReadCtrl(len),
        Phase::ParseParams => io matches Io::ParseParams(body) && body@ == s.params_body,
        Phase::WaitClientBody { len } => io == Io::ReadCtrl(len),
        Phase::NeedData => io matches Io::NeedDataChannel { cookie, transport } && cookie@ == s.cookie
            && transport == match s.params {
            Some(p) => p.transport,
            None => Transport::Tcp,
        },
        Phase::Pump => io == Io::Pump,
        Phase::WaitDone => io == Io::ReadCtrl(1),
        Phase::Done => io == Io::Done,
    }
}

impl Server {
    /// An idle server.
    pub fn new() -> (s: Self)
        ensures
            !s@,
    {
        Self { busy: false }
    }

    /// Whether a test is running.
    pub fn is_busy(&self) -> (b: bool)
        ensures
            b == self@,
    {
        self.busy
    }

    /// Admits a new control connection when no test runs, and is then busy;
    /// else answers ACCESS_DENIED and stays as it was.
    pub fn start_session(&mut self) -> (r: Start)
        ensures
            admits(old(self)@) ==> (r matches Start::Accepted(s) && s@ == initial_session()),
            !admits(old(self)@) ==> (r matches Start::AccessDenied(b) && b@ == seq![
                state_byte(ACCESS_DENIED),
            ]),
            final(self)@ == server_step(old(self)@, ServerEvent::Started),
    {
        if self.busy {
            let b: [u8; 1] = [ACCESS_DENIED as u8];
            assert(b@ =~= seq![state_byte(ACCESS_DENIED)]);
            return Start::AccessDenied(b);
        }
        self.busy = true;
        Start::Accepted(Session::new())
    }

    /// The session is over: the server is idle again.
    pub fn end_session(&mut self, _session: Session)
        ensures
            final(self)@ == server_step(old(self)@, ServerEvent::Ended),
    {
        self.busy = false;
    }
}

impl Default for Server {
    fn default() -> (s: Self)
        ensures
            !s@,
    {
        Self::new()
    }
}

/// `a + b`, held to the range of `i64`.
fn saturating_add_i64(a: i64, b: i64) -> (r: i64)
    ensures
        r == saturating_add_i64_spec(a, b),
{
    match a.checked_add(b) {
        Some(s) => s,
        None => if b > 0 {
            i64::MAX
        } else {
            i64::MIN
        },
    }
}

/// What to write on a data connection that `data_ready` refused, before
/// closing it: ACCESS_DENIED when it came with another cookie, nothing for
/// any other refusal.
pub fn data_refusal_reply(err: SessionError) -> (r: Option<[u8; 1]>)
    ensures
        err == SessionError::CookieMismatch ==> (r matches Some(b) && b@ == seq![
            state_byte(ACCESS_DENIED),
        ]),
        err != SessionError::CookieMismatch ==> r is None,
{
    match err {
        SessionError::CookieMismatch => {
            let b: [u8; 1] = [ACCESS_DENIED as u8];
            assert(b@ =~= seq![state_byte(ACCESS_DENIED)]);
            Some(b)
        },
        _ => None,
    }
}

/// Whether a read of `n` control bytes is one that a session can ask for:
/// at least one byte and no more than the larger JSON limit.
pub fn ctrl_read_len_ok(n: usize) -> (ok: bool)
    ensures
        ok == (0 < n <= MAX_RESULTS_JSON),
{
    n > 0 && n <= MAX_RESULTS_JSON
}

/// Whether `a` holds the bytes of `b`.
fn same_bytes(a: &[u8], b: &[u8; COOKIE_SIZE]) -> (r: bool)
    ensures
        r == (a@ == b@),
{
    if a.len() != COOKIE_SIZE {
        assert(a@.len() != b@.len());
        return false;
    }
    let mut i: usize = 0;
    while i < COOKIE_SIZE
        invariant
            i <= COOKIE_SIZE,
            a@.len() == COOKIE_SIZE,
            b@.len() == COOKIE_SIZE,
            forall|j: int| 0 <= j < i ==> a@[j] == b@[j],
        decreases COOKIE_SIZE - i,
    {
        if a[i] != b[i] {
            return false;
        }
        i = i + 1;
    }
    assert(a@ =~= b@);
    true
}

/// Reads a JSON length field of at most `max`.
fn read_json_len(data: &[u8], max: usize) -> (r: Result<usize, SessionError>)
    ensures
        r == json_len_field(data@, max),
{
    if data.len() != 4 {
        return Err(SessionError::Frame);
    }
    let len = read_be32(data, 0);
    if len == 0 || len as usize > max {
        return Err(SessionError::Frame);
    }
    Ok(len as usize)
}

impl Session {
    /// Every session is well formed.
    #[verifier::type_invariant]
    spec fn wf(self) -> bool {
        session_wf(self@)
    }

    fn new() -> (s: Self)
        ensures
            s@ == initial_session(),
    {
        let s = Self {
            phase: Phase::WaitCookie,
            out: Vec::new(),
            cookie: [0u8; COOKIE_SIZE],
            params_body: Vec::new(),
            params: None,
            stats: StreamStats::default(),
        };
        assert(s@.cookie =~= initial_session().cookie);
        s
    }

    /// The next command: queued control bytes first (handed out once, the
    /// queue is then empty), else the phase's command.
    pub fn poll(&mut self) -> (io: Io)
        ensures
            old(self)@.out.len() > 0 ==> (io matches Io::WriteCtrl(bytes) && bytes@ == old(self)@.out
                && final(self)@ == (SessionState { out: Seq::empty(), ..old(self)@ })),
            old(self)@.out.len() == 0 ==> phase_io(io, old(self)@) && final(self)@ == old(self)@,
            io matches Io::ReadCtrl(n) ==> 0 < n <= MAX_RESULTS_JSON,
            session_wf(old(self)@),
            final(self)@ == step(old(self)@, Event::Poll),
            io matches Io::WriteCtrl(bytes) ==> bytes@ == written(old(self)@, Event::Poll),
            !(io is WriteCtrl) ==> written(old(self)@, Event::Poll) == Seq::<u8>::empty(),
    {
        proof {
            lemma_step_unfold(self@, Event::Poll);
            assert(self@.out.len() == 0 ==> self@.out =~= Seq::<u8>::empty());
        }
        proof {
            use_type_invariant(&*self);
        }
        if !self.out.is_empty() {
            let mut taken: Vec<u8> = Vec::new();
            std::mem::swap(&mut taken, &mut self.out);
            assert(self@.out =~= Seq::<u8>::empty());
            return Io::WriteCtrl(taken);
        }
        match self.phase {
            Phase::WaitCookie => Io::ReadCtrl(COOKIE_SIZE),
            Phase::WaitJsonLen => Io::ReadCtrl(4),
            Phase::WaitClientLen => Io::ReadCtrl(4),
            Phase::WaitJsonBody { len } => Io::ReadCtrl(len),
            Phase::ParseParams => {
                let mut body: Vec<u8> = Vec::new();
                body.extend_from_slice(self.params_body.as_slice());
                assert(body@ =~= self.params_body@);
                Io::ParseParams(body)
            },
            Phase::WaitClientBody { len } => Io::ReadCtrl(len),
            Phase::NeedData => Io::NeedDataChannel {
                cookie: self.cookie,
                transport: match self.params {
                    Some(p) => p.transport,
                    None => Transport::Tcp,
                },
            },
            Phase::Pump => Io::Pump,
            Phase::WaitDone => Io::ReadCtrl(1),
            Phase::Done => Io::Done,
        }
    }

    /// Feeds bytes read from the control connection. The parameter body
    /// goes through [`Session::feed_params`] instead. On error the session
    /// is left as it was.
    pub fn feed_ctrl(&mut self, data: &[u8]) -> (r: Result<(), SessionError>)
        ensures
            match ctrl_step(old(self)@, data@) {
                Ok(t) => r is Ok && final(self)@ == t,
                Err(e) => r == Err::<(), SessionError>(e) && final(self)@ == old(self)@,
            },
            final(self)@ == step(old(self)@, Event::Ctrl(data@)),
    {
        proof {
            lemma_step_unfold(self@, Event::Ctrl(data@));
        }
        proof {
            use_type_invariant(&*self);
        }
        match self.phase {
            Phase::WaitCookie => {
                if data.len() != COOKIE_SIZE {
                    return Err(SessionError::CookieLen);
                }
                let mut cookie: [u8; COOKIE_SIZE] = [0u8; COOKIE_SIZE];
                let mut i: usize = 0;
                while i < COOKIE_SIZE
                    invariant
                        i <= COOKIE_SIZE,
                        data@.len() == COOKIE_SIZE,
                        cookie@.len() == COOKIE_SIZE,
                        forall|j: int| 0 <= j < i ==> cookie@[j] == data@[j],
                    decreases COOKIE_SIZE - i,
                {
                    cookie[i] = data[i];
                    i = i + 1;
                }
                assert(cookie@ =~= data@);
                self.cookie = cookie;
                self.queue_state(PARAM_EXCHANGE);
                self.phase = Phase::WaitJsonLen;
            },
            Phase::WaitJsonLen => {
                let len = read_json_len(data, MAX_PARAMS_JSON)?;
                self.phase = Phase::WaitJsonBody { len };
            },
            Phase::WaitJsonBody { len } => {
                if data.len() != len {
                    return Err(SessionError::Frame);
                }
                let mut body: Vec<u8> = Vec::new();
                body.extend_from_slice(data);
                assert(body@ =~= data@);
                self.params_body = body;
                self.phase = Phase::ParseParams;
            },
            Phase::Pump => {
                if data.len() != 1 {
                    return Err(SessionError::Frame);
                }
                if #[verifier::truncate] (data[0] as i8) != TEST_END {
                    return Err(SessionError::Unexpected);
                }
                self.begin_exchange_results();
            },
            Phase::WaitClientLen => {
                let len = read_json_len(data, MAX_RESULTS_JSON)?;
                self.phase = Phase::WaitClientBody { len };
            },
            Phase::WaitClientBody { len } => {
                if data.len() != len {
                    return Err(SessionError::Frame);
                }
                let shr: i32 = match self.params {
                    Some(p) => if p.reverse {
                        0
                    } else {
                        -1
                    },
                    None => -1,
                };
                let json = encode_results_json(&self.stats, shr);
                let frame = encode_json_frame(json.as_slice());
                let mut msg = frame;
                msg.push(DISPLAY_RESULTS as u8);
                self.queue(msg.as_slice());
                assert(shr == sender_has_retransmits(old(self)@.params));
                assert(self.out@ =~= old(self)@.out + json_frame(
                    results_json(old(self)@.stats, shr),
                ).push(state_byte(DISPLAY_RESULTS)));
                self.phase = Phase::WaitDone;
            },
            Phase::WaitDone => {
                if data.len() != 1 {
                    return Err(SessionError::Frame);
                }
                if #[verifier::truncate] (data[0] as i8) != IPERF_DONE {
                    return Err(SessionError::Unexpected);
                }
                self.phase = Phase::Done;
            },
            _ => return Err(SessionError::Unexpected),
        }
        Ok(())
    }

    /// Hands in what the parameter body (given out by `Io::ParseParams`)
    /// holds: `None` when it is not a JSON object. Accepted parameters queue
    /// CREATE_STREAMS; refused ones queue SERVER_ERROR with the iperf error
    /// number and end the session. On error the session is left as it was.
    pub fn feed_params(&mut self, doc: Option<&ParamsDoc>) -> (r: Result<(), SessionError>)
        ensures
            match params_step(
                old(self)@,
                match doc {
                    Some(d) => Some(*d),
                    None => None,
                },
            ) {
                Ok(t) => r is Ok && final(self)@ == t,
                Err(e) => r == Err::<(), SessionError>(e) && final(self)@ == old(self)@,
            },
            final(self)@ == step(old(self)@, Event::Params(match doc {
                Some(d) => Some(*d),
                None => None,
            })),
    {
        proof {
            lemma_step_unfold(self@, Event::Params(match doc {
                Some(d) => Some(*d),
                None => None,
            }));
        }
        proof {
            use_type_invariant(&*self);
        }
        match self.phase {
            Phase::ParseParams => {
                match TestParams::from_doc(doc) {
                    Ok(p) => {
                        self.params = Some(p);
                        self.queue_state(CREATE_STREAMS);
                        self.phase = Phase::NeedData;
                    },
                    Err(e) => {
                        self.queue_server_error(e);
                        self.phase = Phase::Done;
                    },
                }
                Ok(())
            },
            _ => Err(SessionError::Unexpected),
        }
    }

    /// The data channel is up and sent `cookie`.
    pub fn data_ready(&mut self, cookie: &[u8]) -> (r: Result<(), SessionError>)
        ensures
            match data_ready_step(old(self)@, cookie@) {
                Ok(t) => r is Ok && final(self)@ == t,
                Err(e) => r == Err::<(), SessionError>(e) && final(self)@ == old(self)@,
            },
            final(self)@ == step(old(self)@, Event::DataReady(cookie@)),
    {
        proof {
            lemma_step_unfold(self@, Event::DataReady(cookie@));
        }
        proof {
            use_type_invariant(&*self);
        }
        match self.phase {
            Phase::NeedData => {},
            _ => return Err(SessionError::Unexpected),
        }
        if !same_bytes(cookie, &self.cookie) {
            return Err(SessionError::CookieMismatch);
        }
        self.queue_state(TEST_START);
        self.queue_state(TEST_RUNNING);
        self.phase = Phase::Pump;
        Ok(())
    }

    /// UDP data handshake: the client sends `UDP_CONNECT_MSG`, the server
    /// answers `UDP_CONNECT_REPLY`.
    pub fn udp_connect_reply(&self, datagram: &[u8]) -> (r: Result<[u8; 4], SessionError>)
        ensures
            (datagram@.len() >= 4 && datagram@.subrange(0, 4) == UDP_CONNECT_MSG@) ==> (r matches Ok(
                reply,
            ) && reply@ == UDP_CONNECT_REPLY@),
            !(datagram@.len() >= 4 && datagram@.subrange(0, 4) == UDP_CONNECT_MSG@) ==> r == Err::<
                [u8; 4],
                SessionError,
            >(SessionError::UdpHello),
    {
        if !is_udp_connect_msg(datagram) {
            return Err(SessionError::UdpHello);
        }
        Ok(UDP_CONNECT_REPLY)
    }

    /// Reverse time is up or the peer closed: as if TEST_END had come.
    pub fn end_test(&mut self) -> (r: Result<(), SessionError>)
        ensures
            match end_test_step(old(self)@) {
                Ok(t) => r is Ok && final(self)@ == t,
                Err(e) => r == Err::<(), SessionError>(e) && final(self)@ == old(self)@,
            },
            final(self)@ == step(old(self)@, Event::EndTest),
    {
        proof {
            lemma_step_unfold(self@, Event::EndTest);
        }
        proof {
            use_type_invariant(&*self);
        }
        match self.phase {
            Phase::Pump => {},
            _ => return Err(SessionError::Unexpected),
        }
        self.begin_exchange_results();
        Ok(())
    }

    /// Counts `n` more bytes of test data, stopping at `u64::MAX`.
    pub fn add_bytes(&mut self, n: u64)
        ensures
            final(self)@ == add_bytes_step(old(self)@, n),
            final(self)@ == step(old(self)@, Event::AddBytes(n)),
    {
        proof {
            lemma_step_unfold(self@, Event::AddBytes(n));
        }
        proof {
            use_type_invariant(&*self);
        }
        self.stats.bytes = self.stats.bytes.saturating_add(n);
    }

    /// Counts one received datagram: its bytes, and on a UDP test the
    /// sequence numbers lost or out of order.
    pub fn note_udp_datagram(&mut self, payload: &[u8])
        ensures
            final(self)@ == (SessionState { stats: datagram_stats(old(self)@, payload@), ..old(self)@ }),
            final(self)@ == step(old(self)@, Event::Datagram(payload@)),
    {
        proof {
            lemma_step_unfold(self@, Event::Datagram(payload@));
        }
        proof {
            use_type_invariant(&*self);
        }
        self.stats.bytes = self.stats.bytes.saturating_add(payload.len() as u64);
        let p = match self.params {
            Some(p) => p,
            None => return,
        };
        if p.transport != Transport::Udp {
            return;
        }
        let h = match UdpHeader::decode(p.udp_counters_64bit, payload) {
            Ok(h) => h,
            Err(_) => return,
        };
        let prev: u64 = #[verifier::truncate] (self.stats.packets as u64);
        if h.packet_count >= prev.saturating_add(1) {
            if h.packet_count > prev.saturating_add(1) {
                let gap: u64 = h.packet_count - 1 - prev;
                self.stats.errors = saturating_add_i64(
                    self.stats.errors,
                    #[verifier::truncate] (gap as i64),
                );
            }
            self.stats.packets = #[verifier::truncate] (h.packet_count as i64);
        } else if self.stats.errors > 0 {
            self.stats.errors = self.stats.errors - 1;
        }
    }

    /// The accepted parameters, once there are any.
    pub fn params(&self) -> (p: Option<TestParams>)
        ensures
            p == self@.params,
    {
        self.params
    }

    /// The cookie of the control connection (zero until it is read).
    pub fn cookie(&self) -> (c: &[u8; COOKIE_SIZE])
        ensures
            c@ == self@.cookie,
    {
        &self.cookie
    }

    /// The stream counters.
    pub fn stats(&self) -> (s: StreamStats)
        ensures
            s == self@.stats,
    {
        self.stats
    }

    fn begin_exchange_results(&mut self)
        ensures
            final(self)@ == exchange_results(old(self)@),
    {
        proof {
            use_type_invariant(&*self);
        }
        self.queue_state(EXCHANGE_RESULTS);
        self.phase = Phase::WaitClientLen;
    }

    fn queue_server_error(&mut self, err: ParamsError)
        ensures
            final(self)@ == (SessionState { out: old(self)@.out + server_error_bytes(err), ..old(self)@ }),
    {
        proof {
            use_type_invariant(&*self);
        }
        let code: i32 = match err {
            ParamsError::InvalidJson => IERECVPARAMS,
            ParamsError::Sctp | ParamsError::Parallel | ParamsError::Bidir
            | ParamsError::UdpTooSmall => IEPROTOCOL,
        };
        let mut msg: Vec<u8> = Vec::new();
        msg.push(SERVER_ERROR as u8);
        push_be32(&mut msg, code as u32);
        push_be32(&mut msg, 0u32);
        assert(msg@ =~= server_error_bytes(err));
        self.queue(msg.as_slice());
    }

    /// Appends `bytes` to the bytes queued for the control connection.
    fn queue(&mut self, bytes: &[u8])
        ensures
            final(self)@ == (SessionState { out: old(self)@.out + bytes@, ..old(self)@ }),
    {
        proof {
            use_type_invariant(&*self);
        }
        let mut out: Vec<u8> = Vec::new();
        std::mem::swap(&mut out, &mut self.out);
        out.extend_from_slice(bytes);
        std::mem::swap(&mut out, &mut self.out);
        assert(self@.out =~= old(self)@.out + bytes@);
    }

    /// Queues one state byte.
    fn queue_state(&mut self, state: i8)
        ensures
            final(self)@ == (SessionState { out: old(self)@.out.push(state_byte(state)), ..old(self)@ }),
    {
        proof {
            use_type_invariant(&*self);
        }
        let b: [u8; 1] = [state as u8];
        assert(old(self)@.out + b@ =~= old(self)@.out.push(state_byte(state)));
        self.queue(b.as_slice());
    }
}

/// Counting never lowers the byte count.
pub proof fn law_bytes_never_decrease(s: SessionState, n: u64, payload: Seq<u8>)
    ensures
        add_bytes_step(s, n).stats.bytes >= s.stats.bytes,
        datagram_stats(s, payload).bytes >= s.stats.bytes,
{
}

/// A datagram in order counts no loss: its sequence number becomes the
/// highest seen, and the lost count stays.
pub proof fn law_in_order_datagram(stats: StreamStats, h: UdpHeader)
    requires
        0 <= stats.packets < i64::MAX,
        h.packet_count == stats.packets + 1,
    ensures
        udp_loss_step(stats, h).packets == h.packet_count,
        udp_loss_step(stats, h).errors == stats.errors,
{
}

/// A datagram past the next expected one counts the sequence numbers it
/// skipped as lost.
pub proof fn law_skipped_datagrams_lost(stats: StreamStats, h: UdpHeader)
    requires
        0 <= stats.packets,
        stats.packets + 1 < h.packet_count <= i64::MAX,
        0 <= stats.errors,
        stats.errors + (h.packet_count - 1 - stats.packets) <= i64::MAX,
    ensures
        udp_loss_step(stats, h).packets == h.packet_count,
        udp_loss_step(stats, h).errors == stats.errors + (h.packet_count - 1 - stats.packets),
{
}

/// A late datagram (at or below the highest sequence number seen) takes one
/// back from the lost count, which does not go below 0.
pub proof fn law_late_datagram(stats: StreamStats, h: UdpHeader)
    requires
        0 <= stats.packets,
        h.packet_count <= stats.packets,
    ensures
        udp_loss_step(stats, h).packets == stats.packets,
        udp_loss_step(stats, h).errors == if stats.errors > 0 {
            stats.errors - 1
        } else {
            stats.errors as int
        },
{
}

/// What every session keeps: a cookie of `COOKIE_SIZE` bytes, and an
/// announced JSON length from 1 to its limit.
pub open spec fn session_wf(s: SessionState) -> bool {
    &&& s.cookie.len() == COOKIE_SIZE
    &&& match s.phase {
        Phase::WaitJsonBody { len } => 0 < len <= MAX_PARAMS_JSON,
        Phase::WaitClientBody { len } => 0 < len <= MAX_RESULTS_JSON,
        _ => true,
    }
}

/// A new session is well formed, and every step keeps it so: feeding
/// control bytes or parameters, the data channel coming up, the test
/// ending, counting bytes or datagrams, and draining the queued bytes.
pub proof fn law_steps_keep_session_wf(
    s: SessionState,
    data: Seq<u8>,
    doc: Option<ParamsDoc>,
    n: u64,
)
    requires
        session_wf(s),
    ensures
        session_wf(initial_session()),
        ctrl_step(s, data) matches Ok(t) ==> session_wf(t),
        params_step(s, doc) matches Ok(t) ==> session_wf(t),
        data_ready_step(s, data) matches Ok(t) ==> session_wf(t),
        end_test_step(s) matches Ok(t) ==> session_wf(t),
        session_wf(add_bytes_step(s, n)),
        session_wf(SessionState { stats: datagram_stats(s, data), ..s }),
        session_wf(SessionState { out: Seq::empty(), ..s }),
{
}

/// Every read that a well-formed session asks for is one that
/// [`ctrl_read_len_ok`] admits: at least one byte and at most 64 KiB.
pub proof fn law_reads_in_bounds(s: SessionState, io: Io)
    requires
        session_wf(s),
        phase_io(io, s),
    ensures
        io matches Io::ReadCtrl(n) ==> 0 < n <= MAX_RESULTS_JSON,
{
}

/// Counting adds: `add_bytes(n)` raises the byte count by exactly `n`
/// whenever the sum fits, from any count, and holds it at `u64::MAX`
/// otherwise; nothing else changes. Two counts in a row add up as one.
pub proof fn law_add_bytes_adds(s: SessionState, a: u64, b: u64)
    ensures
        s.stats.bytes + a <= u64::MAX ==> add_bytes_step(s, a).stats.bytes == s.stats.bytes + a,
        s.stats.bytes + a > u64::MAX ==> add_bytes_step(s, a).stats.bytes == u64::MAX,
        add_bytes_step(s, a) == (SessionState {
            stats: (StreamStats { bytes: add_bytes_step(s, a).stats.bytes, ..s.stats }),
            ..s
        }),
        s.stats.bytes + a + b <= u64::MAX ==> add_bytes_step(add_bytes_step(s, a), b).stats.bytes
            == s.stats.bytes + a + b,
{
}

/// On a UDP test every datagram whose header reads is counted for loss,
/// whatever its length: its length is added to the bytes; a sequence number
/// past the highest seen becomes the highest, and the numbers it skipped
/// count as lost; an older one takes one back from the lost count.
pub proof fn law_udp_datagram_counted(s: SessionState, payload: Seq<u8>)
    requires
        s.params matches Some(p) && p.transport == Transport::Udp,
        decode_header(s.params->Some_0.udp_counters_64bit, payload) is Ok,
        0 <= s.stats.packets,
        0 <= s.stats.errors,
    ensures
        ({
            let h = decode_header(s.params->Some_0.udp_counters_64bit, payload)->Ok_0;
            let t = datagram_stats(s, payload);
            &&& s.stats.bytes + payload.len() <= u64::MAX ==> t.bytes == s.stats.bytes
                + payload.len()
            &&& (s.stats.packets < h.packet_count <= i64::MAX && s.stats.errors + (h.packet_count
                - 1 - s.stats.packets) <= i64::MAX) ==> t.packets == h.packet_count && t.errors
                == s.stats.errors + (h.packet_count - 1 - s.stats.packets)
            &&& h.packet_count <= s.stats.packets ==> t.packets == s.stats.packets && t.errors == (
            if s.stats.errors > 0 {
                s.stats.errors - 1
            } else {
                0
            })
        }),
{
}

/// The data channel is asked for with the session's own cookie, on TCP as
/// on UDP: in phase NeedData with nothing queued, `poll` gives
/// NeedDataChannel with the cookie the session holds.
pub proof fn law_data_channel_cookie(s: SessionState, io: Io)
    requires
        s.phase == Phase::NeedData,
        phase_io(io, s),
    ensures
        io matches Io::NeedDataChannel { cookie, transport } && cookie@ == s.cookie
            && transport == (match s.params {
            Some(p) => p.transport,
            None => Transport::Tcp,
        }),
{
}

} // verus!
